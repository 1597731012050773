//! Agent profiles: how an agent is launched, and how it is written to.

use vstd::prelude::*;
use vstd::utf8::{
    char_is_scalar, char_u32_cast, encode_scalar, encode_utf8, has_width_1_encoding, is_scalar,
};

use crate::event::Protocol;
use crate::json::{
    key_before, list_of_one, plain, reads_as, table_of_two, text_value, write_value, written_json,
    JsonView,
};
use crate::text::{
    chars_of, decimal, lemma_decimal_injective, lemma_decimal_value, lemma_first_part_unique,
    number, same, text_le, views,
};

verus! {

/// A host path exposed at a destination in the sandbox.
#[derive(Debug, PartialEq, Eq)]
pub struct MountSpec {
    pub source: String,
    pub destination: String,
    pub writable: bool,
}

/// The stable paths inside a sandbox.
#[derive(Debug, PartialEq, Eq)]
pub struct SandboxLayout {
    /// Where the operator's project is mounted.
    pub workspace: String,
}

/// Where the operator's project is mounted unless said otherwise.
pub open spec fn sandbox_workspace() -> Seq<char> {
    "/tmp/styra/workspace"@
}

impl Default for SandboxLayout {
    fn default() -> (r: SandboxLayout)
        ensures
            r.workspace@ == sandbox_workspace(),
    {
        SandboxLayout { workspace: "/tmp/styra/workspace".to_owned() }
    }
}

/// How an operator's message becomes one line of the agent's input.
#[derive(Clone, Copy, Debug, PartialEq, Eq, Structural)]
pub enum MessageFormat {
    /// A submission envelope that carries the text as a user turn.
    CodexSubmission,
    /// The text itself, on one line.
    PlainLine,
}

/// Everything needed to launch and drive one agent.
#[derive(Debug, PartialEq, Eq)]
pub struct Profile {
    pub name: String,
    pub command: Vec<String>,
    pub protocol: Protocol,
    pub mounts: Vec<MountSpec>,
    /// The variables of the agent's environment, by name.
    pub environment: Vec<(String, String)>,
    pub network: bool,
    pub message_format: MessageFormat,
    /// Whether the agent reads one prompt to the end of its input and then runs
    /// to completion.
    pub single_turn: bool,
}

/// What a text's `Debug` output is: the text in double quotes, with what needs
/// it escaped.
pub uninterp spec fn quoted_text(text: Seq<char>) -> Seq<char>;

/// The `Debug` output of `str`, as `format!` writes it.
#[verifier::external_body]
fn quoted(text: &str) -> (r: String)
    ensures
        r@ == quoted_text(text@),
{
    format!("{text:?}")
}

/// The command line of the built-in profile, for a quoted workspace.
pub open spec fn codex_command(quoted_workspace: Seq<char>) -> Seq<Seq<char>> {
    seq![
        "codex"@,
        "-c"@,
        "projects."@ + quoted_workspace + ".trust_level=\"trusted\""@,
        "--sandbox"@,
        "danger-full-access"@,
        "exec"@,
        "--skip-git-repo-check"@,
        "--json"@,
        "-"@,
    ]
}

/// Whether `profile` is the built-in profile, for a quoted workspace.
pub open spec fn is_codex(profile: Profile, quoted_workspace: Seq<char>) -> bool {
    &&& profile.name@ == "codex"@
    &&& views(profile.command@) == codex_command(quoted_workspace)
    &&& profile.protocol == Protocol::CodexJsonl
    &&& profile.mounts@.len() == 1
    &&& profile.mounts@[0].source@ == "~/.codex/auth.json"@
    &&& profile.mounts@[0].destination@ == "/tmp/agent-home/.codex/auth.json"@
    &&& profile.mounts@[0].writable
    &&& profile.environment@.len() == 2
    &&& profile.environment@[0].0@ == "HOME"@
    &&& profile.environment@[0].1@ == "/tmp/agent-home"@
    &&& profile.environment@[1].0@ == "TERM"@
    &&& profile.environment@[1].1@ == "xterm-256color"@
    &&& profile.network
    &&& profile.message_format == MessageFormat::PlainLine
    &&& profile.single_turn
}

/// The built-in profile: one turn, read from standard input, with the sandbox
/// trusted to do the confining.
pub fn codex(layout: &SandboxLayout) -> (r: Profile)
    ensures
        is_codex(r, quoted_text(layout.workspace@)),
{
    codex_trusting(quoted(layout.workspace.as_str()).as_str())
}

/// The built-in profile, for a quoted workspace.
pub fn codex_trusting(quoted_workspace: &str) -> (r: Profile)
    ensures
        is_codex(r, quoted_workspace@),
{
    let mut trust = "projects.".to_owned();
    trust.append(quoted_workspace);
    trust.append(".trust_level=\"trusted\"");
    let mut command: Vec<String> = Vec::new();
    command.push("codex".to_owned());
    command.push("-c".to_owned());
    command.push(trust);
    command.push("--sandbox".to_owned());
    command.push("danger-full-access".to_owned());
    command.push("exec".to_owned());
    command.push("--skip-git-repo-check".to_owned());
    command.push("--json".to_owned());
    command.push("-".to_owned());
    assert(views(command@) =~= codex_command(quoted_workspace@));
    let mut mounts: Vec<MountSpec> = Vec::new();
    mounts.push(
        MountSpec {
            source: "~/.codex/auth.json".to_owned(),
            destination: "/tmp/agent-home/.codex/auth.json".to_owned(),
            writable: true,
        },
    );
    let mut environment: Vec<(String, String)> = Vec::new();
    environment.push(("HOME".to_owned(), "/tmp/agent-home".to_owned()));
    environment.push(("TERM".to_owned(), "xterm-256color".to_owned()));
    Profile {
        name: "codex".to_owned(),
        command,
        protocol: Protocol::CodexJsonl,
        mounts,
        environment,
        network: true,
        message_format: MessageFormat::PlainLine,
        single_turn: true,
    }
}

/// A user turn in Codex's submission envelope.
pub open spec fn submission(id: Seq<char>, text: Seq<char>) -> JsonView {
    JsonView::Table(
        seq![
            ("id"@, JsonView::Text(id)),
            (
                "op"@,
                JsonView::Table(
                    seq![
                        (
                            "items"@,
                            JsonView::List(
                                seq![
                                    JsonView::Table(
                                        seq![
                                            ("text"@, JsonView::Text(text)),
                                            ("type"@, JsonView::Text("text"@)),
                                        ],
                                    ),
                                ],
                            ),
                        ),
                        ("type"@, JsonView::Text("user_input"@)),
                    ],
                ),
            ),
        ],
    )
}

/// The keys of the messages that are written are in dictionary order.
pub proof fn lemma_submission_keys()
    ensures
        key_before("id"@, "op"@),
        key_before("items"@, "type"@),
        key_before("text"@, "type"@),
{
    reveal_strlit("id");
    reveal_strlit("op");
    reveal_strlit("items");
    reveal_strlit("type");
    reveal_strlit("text");
    reveal_with_fuel(text_le, 3);
    assert("id"@[0] == 'i' && "op"@[0] == 'o');
    assert("items"@[0] == 'i' && "type"@[0] == 't');
    assert("text"@[0] == 't' && "text"@[1] == 'e' && "type"@[1] == 'y');
}

proof fn lemma_submission_plain(id: Seq<char>, text: Seq<char>)
    ensures
        plain(submission(id, text), 100),
{
    reveal_with_fuel(plain, 6);
    let item = JsonView::Table(
        seq![("text"@, JsonView::Text(text)), ("type"@, JsonView::Text("text"@))],
    );
    assert(plain(item, 97));
    let items = JsonView::List(seq![item]);
    assert(plain(items, 98));
    let op = JsonView::Table(
        seq![("items"@, items), ("type"@, JsonView::Text("user_input"@))],
    );
    assert(plain(op, 99));
}

/// A submission line that carries the text under the given id. It is one line,
/// and reading it gives the id and the text back.
pub fn codex_submission(id: &str, text: &str) -> (r: String)
    ensures
        r@ == written_json(submission(id@, text@)),
        !r@.contains('\n'),
        reads_as(r@, submission(id@, text@)),
{
    proof {
        lemma_submission_keys();
        lemma_submission_plain(id@, text@);
    }
    let item = table_of_two("text", text_value(text), "type", text_value("text"));
    let op = table_of_two("items", list_of_one(item), "type", text_value("user_input"));
    let envelope = table_of_two("id", text_value(id), "op", op);
    write_value(&envelope)
}

/// The submission id for a time in milliseconds and a count.
pub open spec fn submission_name(now: nat, sequence: nat) -> Seq<char> {
    "styra-"@ + (decimal(now).push('-') + decimal(sequence))
}

/// The submission id for a time in milliseconds and how many came before.
pub fn submission_id(now: u64, sequence: u64) -> (r: String)
    ensures
        r@ == submission_name(now as nat, sequence as nat),
{
    let mut r = "styra-".to_owned();
    r.append(number(now).as_str());
    r.push('-');
    r.append(number(sequence).as_str());
    assert(r@ =~= submission_name(now as nat, sequence as nat));
    r
}

/// Submissions that differ in their time or their count have different ids.
pub proof fn law_submission_ids_differ(now: nat, sequence: nat, later: nat, other: nat)
    requires
        now != later || sequence != other,
    ensures
        submission_name(now, sequence) != submission_name(later, other),
{
    if submission_name(now, sequence) == submission_name(later, other) {
        let a = submission_name(now, sequence);
        let b = submission_name(later, other);
        let n = "styra-"@.len() as int;
        assert(a.skip(n) =~= decimal(now).push('-') + decimal(sequence));
        assert(b.skip(n) =~= decimal(later).push('-') + decimal(other));
        lemma_decimal_value(now);
        lemma_decimal_value(later);
        lemma_first_part_unique(
            decimal(now),
            decimal(later),
            decimal(sequence),
            decimal(other),
            '-',
        );
        lemma_decimal_injective(now, later);
        lemma_decimal_injective(sequence, other);
    }
}

/// `s` with its newlines turned into spaces, which is how a plain line carries
/// it.
pub open spec fn on_one_line(s: Seq<char>) -> Seq<char> {
    s.map_values(|c: char| if c == '\n' { ' ' } else { c })
}

/// The input line for a message, with the newline that ends it.
pub open spec fn message_line(format: MessageFormat, id: Seq<char>, text: Seq<char>) -> Seq<char> {
    match format {
        MessageFormat::CodexSubmission => written_json(submission(id, text)).push('\n'),
        MessageFormat::PlainLine => on_one_line(text).push('\n'),
    }
}

/// Whether a text holds one newline, at its end.
pub open spec fn is_one_line(s: Seq<char>) -> bool {
    s.len() > 0 && s.last() == '\n' && !s.drop_last().contains('\n')
}

/// Whether bytes hold one newline, at their end.
pub open spec fn is_one_line_of_bytes(bytes: Seq<u8>) -> bool {
    &&& bytes.len() > 0
    &&& bytes.last() == 10
    &&& forall|i: int| 0 <= i < bytes.len() - 1 ==> #[trigger] bytes[i] != 10
}

proof fn lemma_no_newline_byte(scalar: u32)
    requires
        is_scalar(scalar),
        scalar != 10,
    ensures
        forall|i: int| 0 <= i < encode_scalar(scalar).len() ==> #[trigger] encode_scalar(scalar)[i]
            != 10,
{
    assert(scalar <= 0x7F && scalar != 10 ==> (scalar & 0x7F) as u8 != 10) by (bit_vector);
    assert(0xC0u8 | ((scalar >> 6) & 0x1F) as u8 != 10) by (bit_vector);
    assert(0xE0u8 | ((scalar >> 12) & 0x0F) as u8 != 10) by (bit_vector);
    assert(0xF0u8 | ((scalar >> 18) & 0x7) as u8 != 10) by (bit_vector);
    assert(0x80u8 | (scalar & 0x3F) as u8 != 10) by (bit_vector);
    assert(0x80u8 | ((scalar >> 6) & 0x3F) as u8 != 10) by (bit_vector);
    assert(0x80u8 | ((scalar >> 12) & 0x3F) as u8 != 10) by (bit_vector);
}

proof fn lemma_line_bytes(body: Seq<char>)
    requires
        !body.contains('\n'),
    ensures
        is_one_line_of_bytes(encode_utf8(body.push('\n'))),
    decreases body.len(),
{
    let line = body.push('\n');
    if body.len() == 0 {
        assert(line.drop_first() =~= Seq::<char>::empty());
        assert((10u32 & 0x7F) as u8 == 10) by (bit_vector);
        assert('\n' as u32 == 10);
        assert(has_width_1_encoding(10u32));
        assert(encode_utf8(line.drop_first()) =~= Seq::<u8>::empty());
        assert(encode_utf8(line) =~= seq![10u8]);
    } else {
        let rest = body.drop_first();
        assert forall|i: int| 0 <= i < rest.len() implies rest[i] != '\n' by {
            assert(body.contains(body[i + 1]));
        }
        lemma_line_bytes(rest);
        assert(line.drop_first() =~= rest.push('\n'));
        assert(body.contains(body[0]));
        char_is_scalar(body[0]);
        assert('\n' as u32 == 10);
        if body[0] as u32 == 10 {
            char_u32_cast(body[0], 10u32);
            char_u32_cast('\n', 10u32);
        }
        lemma_no_newline_byte(body[0] as u32);
        let head = encode_scalar(body[0] as u32);
        let tail = encode_utf8(rest.push('\n'));
        let bytes = encode_utf8(line);
        assert(bytes == head + tail);
        assert forall|i: int| 0 <= i < bytes.len() - 1 implies #[trigger] bytes[i] != 10 by {
            if i < head.len() {
                assert(bytes[i] == head[i]);
            } else {
                assert(bytes[i] == tail[i - head.len()]);
            }
        }
    }
}

impl Profile {
    /// The built-in profile of this name. There is one, named `codex`.
    pub fn builtin(name: &str, layout: &SandboxLayout) -> (r: Result<Profile, String>)
        ensures
            match r {
                Ok(profile) => name@ == "codex"@ && is_codex(
                    profile,
                    quoted_text(layout.workspace@),
                ),
                Err(error) => name@ != "codex"@ && error@ == "unknown agent profile "@
                    + quoted_text(name@) + "; known profiles: codex"@,
            },
    {
        if same(name, "codex") {
            Ok(codex(layout))
        } else {
            let mut error = "unknown agent profile ".to_owned();
            error.append(quoted(name).as_str());
            error.append("; known profiles: codex");
            Err(error)
        }
    }

    /// The input line for a message. A submission carries the id.
    pub fn message_text(&self, id: &str, text: &str) -> (r: String)
        ensures
            r@ == message_line(self.message_format, id@, text@),
            is_one_line(r@),
            self.message_format is CodexSubmission ==> reads_as(
                r@.drop_last(),
                submission(id@, text@),
            ),
    {
        let mut line = match self.message_format {
            MessageFormat::CodexSubmission => codex_submission(id, text),
            MessageFormat::PlainLine => {
                let v = chars_of(text);
                let mut flat = String::new();
                let mut i: usize = 0;
                while i < v.len()
                    invariant
                        i <= v@.len(),
                        flat@ == on_one_line(v@).take(i as int),
                    decreases v.len() - i,
                {
                    if v[i] == '\n' {
                        flat.push(' ');
                    } else {
                        flat.push(v[i]);
                    }
                    assert(on_one_line(v@).take(i + 1) =~= on_one_line(v@).take(i as int).push(
                        on_one_line(v@)[i as int],
                    ));
                    i = i + 1;
                }
                assert(on_one_line(v@).take(v@.len() as int) =~= on_one_line(v@));
                flat
            },
        };
        let ghost body = line@;
        line.push('\n');
        assert(line@.drop_last() =~= body);
        line
    }

    /// The bytes of the input line for a message: one line, and for a submission
    /// one JSON value on it.
    pub fn encode_message(&self, id: &str, text: &str) -> (r: Vec<u8>)
        ensures
            r@ == encode_utf8(message_line(self.message_format, id@, text@)),
            is_one_line_of_bytes(r@),
            self.message_format is CodexSubmission ==> reads_as(
                message_line(self.message_format, id@, text@).drop_last(),
                submission(id@, text@),
            ),
    {
        let line = self.message_text(id, text);
        proof {
            lemma_line_bytes(line@.drop_last());
            assert(line@.drop_last().push('\n') =~= line@);
        }
        line.as_str().as_bytes_vec()
    }
}

} // verus!
