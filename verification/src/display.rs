//! How `fact` shows things to a person: claims, indented content, comment
//! summaries, invitation states, and when output goes through a pager.

use vstd::prelude::*;
use crate::actor_exchange::{ActorClaims, ClaimsView};
use crate::errors::{FactError, Failure, unit_outcome};
use crate::json::{Json, JsonValue, get, get_str, member, str_member};
use crate::arguments::digits_value;
use crate::names::trim_start_matches;
use crate::text::{
    before_first, chars_of, concat, debug_quoted, debug_text, is_unicode_whitespace, is_whitespace_char,
    decimal, decimal_text_u64, join, lemma_before_first_scan, push_char, push_str, str_eq,
    string_of_chars, texts, trim,
    trim_text,
};

verus! {

/// One line as `str::lines` gives it: without its `\n`, and without a `\r`
/// just before that `\n`.
pub open spec fn strip_line_end(line: Seq<char>, ended: bool) -> Seq<char> {
    if ended && line.len() > 0 && line.last() == '\r' {
        line.drop_last()
    } else {
        line
    }
}

pub proof fn lemma_before_first_len(s: Seq<char>, c: char)
    ensures
        before_first(s, c).len() <= s.len(),
        before_first(s, c).len() < s.len() ==> s[before_first(s, c).len() as int] == c,
        before_first(s, c) == s.take(before_first(s, c).len() as int),
    decreases s.len(),
{
    if s.len() > 0 && s[0] != c {
        lemma_before_first_len(s.drop_first(), c);
        let t = before_first(s.drop_first(), c);
        assert(seq![s[0]] + t =~= s.take(t.len() + 1int)) by {
            assert(t =~= s.drop_first().take(t.len() as int));
        }
    } else if s.len() > 0 {
        assert(before_first(s, c) =~= s.take(0));
    } else {
        assert(before_first(s, c) =~= s.take(0));
    }
}

/// `str::lines`: the text split at each `\n`, a `\r` before it dropped; a
/// final line ending adds no empty line.
pub open spec fn lines(s: Seq<char>) -> Seq<Seq<char>>
    decreases s.len(),
{
    if s.len() == 0 {
        Seq::empty()
    } else {
        let head = before_first(s, '\n');
        proof {
            lemma_before_first_len(s, '\n');
        }
        if head.len() >= s.len() {
            seq![head]
        } else {
            seq![strip_line_end(head, true)] + lines(s.skip(head.len() + 1int))
        }
    }
}

/// The lines of a text.
pub fn text_lines(s: &str) -> (r: Vec<String>)
    ensures
        texts(r@) == lines(s@),
{
    let v = chars_of(s);
    let n = v.len();
    let mut out: Vec<String> = Vec::new();
    let mut start: usize = 0;
    assert(s@.skip(0) =~= s@);
    while start < n
        invariant
            n == v@.len(),
            v@ == s@,
            start <= n,
            lines(s@) == texts(out@) + lines(s@.skip(start as int)),
        decreases n - start,
    {
        let ghost t = s@.skip(start as int);
        let mut j: usize = start;
        while j < n && v[j] != '\n'
            invariant
                start <= j <= n,
                n == v@.len(),
                forall|k: int| start <= k < j ==> #[trigger] v@[k] != '\n',
            decreases n - j,
        {
            j = j + 1;
        }
        proof {
            assert forall|k: int| 0 <= k < j - start implies #[trigger] t[k] != '\n' by {
                assert(t[k] == v@[k + start]);
            }
            lemma_before_first_scan(t, '\n', j - start);
            if j < n {
                assert(t.skip(j - start)[0] == '\n');
            } else {
                assert(t.skip(j - start) =~= Seq::<char>::empty());
            }
            assert(t.take(j - start) + Seq::<char>::empty() =~= t.take(j - start));
            assert(t.take(j - start) =~= v@.subrange(start as int, j as int));
        }
        let ghost before = texts(out@);
        if j == n {
            let line = string_of_chars(&v, start, j);
            out.push(line);
            proof {
                assert(texts(out@) =~= before.push(v@.subrange(start as int, j as int)));
                assert(lines(t) == seq![v@.subrange(start as int, j as int)]);
                assert(s@.skip(n as int) =~= Seq::<char>::empty());
                assert(texts(out@) =~= before + lines(t));
            }
            start = n;
        } else {
            let end = if j > start && v[j - 1] == '\r' {
                j - 1
            } else {
                j
            };
            let line = string_of_chars(&v, start, end);
            out.push(line);
            proof {
                let head = v@.subrange(start as int, j as int);
                assert(v@.subrange(start as int, end as int) == strip_line_end(head, true)) by {
                    if j > start && v@[j - 1] == '\r' {
                        assert(head.drop_last() =~= v@.subrange(start as int, end as int));
                    }
                }
                assert(texts(out@) =~= before.push(strip_line_end(head, true)));
                assert(t.skip(j - start + 1) =~= s@.skip(j + 1));
                assert(lines(t) == seq![strip_line_end(head, true)] + lines(s@.skip(j + 1)));
                assert(texts(out@) + lines(s@.skip(j + 1)) =~= before + lines(t));
            }
            start = j + 1;
        }
    }
    assert(s@.skip(n as int) =~= Seq::<char>::empty());
    assert(texts(out@) + Seq::<Seq<char>>::empty() =~= texts(out@));
    out
}

/// Content shown indented by two spaces, line by line, keeping a final line
/// ending.
pub open spec fn indented(content: Seq<char>) -> Seq<char> {
    join(lines(content).map_values(|l: Seq<char>| "  "@ + l), "\n"@) + if content.len() > 0
        && content.last() == '\n' {
        "\n"@
    } else {
        Seq::empty()
    }
}

/// Indents content by two spaces for display.
pub fn indent_show_content(content: &str) -> (r: String)
    ensures
        r@ == indented(content@),
{
    let ls = text_lines(content);
    let ghost want = lines(content@).map_values(|l: Seq<char>| "  "@ + l);
    let mut r = String::new();
    let mut i: usize = 0;
    while i < ls.len()
        invariant
            i <= ls@.len(),
            want == lines(content@).map_values(|l: Seq<char>| "  "@ + l),
            texts(ls@) == lines(content@),
            r@ == join(want.take(i as int), "\n"@),
        decreases ls@.len() - i,
    {
        assert(want.take(i + 1).drop_last() =~= want.take(i as int));
        assert(want[i as int] == "  "@ + ls@[i as int]@);
        if i > 0 {
            push_str(&mut r, "\n");
        } else {
            assert(r@ =~= Seq::<char>::empty());
        }
        push_str(&mut r, "  ");
        push_str(&mut r, ls[i].as_str());
        i = i + 1;
    }
    assert(want.take(ls@.len() as int) =~= want);
    let v = chars_of(content);
    if v.len() > 0 && v[v.len() - 1] == '\n' {
        push_str(&mut r, "\n");
    } else {
        assert(r@ + Seq::<char>::empty() =~= r@);
    }
    r
}

/// The first line of content that is not blank, trimmed.
pub open spec fn first_nonblank(ls: Seq<Seq<char>>) -> Option<Seq<char>>
    decreases ls.len(),
{
    if ls.len() == 0 {
        None
    } else if trim(ls[0]).len() > 0 {
        Some(trim(ls[0]))
    } else {
        first_nonblank(ls.drop_first())
    }
}

/// The summary of a comment written in Markdown: its first non-blank line,
/// heading marks and surrounding whitespace removed, or `No summary`.
pub open spec fn comment_summary(content: Seq<char>) -> Seq<char> {
    match first_nonblank(lines(content)) {
        Some(line) => {
            let s = trim(trim_start_matches(line, '#'));
            if s.len() > 0 {
                s
            } else {
                "No summary"@
            }
        },
        None => "No summary"@,
    }
}

/// The summary of a comment written in Markdown.
pub fn summary_for_comment_markdown(content: &str) -> (r: String)
    ensures
        r@ == comment_summary(content@),
{
    let ls = text_lines(content);
    let ghost all = texts(ls@);
    let mut i: usize = 0;
    assert(all.skip(0) =~= all);
    while i < ls.len()
        invariant
            i <= ls@.len(),
            all == texts(ls@),
            all == lines(content@),
            first_nonblank(all) == first_nonblank(all.skip(i as int)),
        decreases ls@.len() - i,
    {
        assert(all.skip(i as int).drop_first() =~= all.skip(i + 1));
        assert(all.skip(i as int)[0] == ls@[i as int]@);
        let line = trim_text(ls[i].as_str());
        if !line.as_str().is_empty() {
            let stripped = crate::names::trim_char_start(line.as_str(), '#');
            let s = trim_text(stripped.as_str());
            if s.as_str().is_empty() {
                return "No summary".to_owned();
            }
            return s;
        }
        i = i + 1;
    }
    assert(all.skip(i as int) =~= Seq::<Seq<char>>::empty());
    "No summary".to_owned()
}

/// The label shown for an invitation's status.
pub open spec fn status_label(status: Seq<char>) -> Seq<char> {
    if status == "decline"@ {
        "rejected"@
    } else if status == "revoke"@ {
        "revoked"@
    } else if status == "supersede"@ {
        "superseded"@
    } else {
        status
    }
}

/// The label shown for an invitation's status.
pub fn invitation_status_label(status: &str) -> (r: String)
    ensures
        r@ == status_label(status@),
{
    if str_eq(status, "decline") {
        "rejected".to_owned()
    } else if str_eq(status, "revoke") {
        "revoked".to_owned()
    } else if str_eq(status, "supersede") {
        "superseded".to_owned()
    } else {
        status.to_owned()
    }
}

/// How an actor's claims are shown: `"name"  @alias  (type)`, with
/// `unnamed`, no alias part, and `unknown` for what is missing.
pub open spec fn claims_text(c: ClaimsView) -> Seq<char> {
    let name = match c.display_name {
        Some(n) => n,
        None => "unnamed"@,
    };
    let alias = match c.alias {
        Some(a) => "  @"@ + a,
        None => Seq::empty(),
    };
    let actor_type = match c.actor_type {
        Some(t) => t,
        None => "unknown"@,
    };
    "\""@ + name + "\""@ + alias + "  ("@ + actor_type + ")"@
}

/// Shows an actor's claims.
pub fn format_actor_claims(claims: &ActorClaims) -> (r: String)
    ensures
        r@ == claims_text(claims@),
{
    let mut r = "\"".to_owned();
    match &claims.display_name {
        Some(n) => push_str(&mut r, n.as_str()),
        None => push_str(&mut r, "unnamed"),
    }
    push_str(&mut r, "\"");
    match &claims.alias {
        Some(a) => {
            push_str(&mut r, "  @");
            push_str(&mut r, a.as_str());
        },
        None => {},
    }
    push_str(&mut r, "  (");
    match &claims.actor_type {
        Some(t) => push_str(&mut r, t.as_str()),
        None => push_str(&mut r, "unknown"),
    }
    push_str(&mut r, ")");
    proof {
        let c = claims@;
        let name = match c.display_name {
            Some(n) => n,
            None => "unnamed"@,
        };
        let alias = match c.alias {
            Some(a) => "  @"@ + a,
            None => Seq::empty(),
        };
        let actor_type = match c.actor_type {
            Some(t) => t,
            None => "unknown"@,
        };
        assert(r@ =~= "\""@ + name + "\""@ + alias + "  ("@ + actor_type + ")"@);
    }
    r
}

/// How a reference to an actor is shown: `display (@alias)`, the display
/// name, `@alias`, or else its `actor_ref` (or `-`).
pub open spec fn actor_reference_text(v: JsonValue) -> Seq<char> {
    match (str_member(v, "display_name"@), str_member(v, "alias"@)) {
        (Some(d), Some(a)) => d + " (@"@ + a + ")"@,
        (Some(d), None) => d,
        (None, Some(a)) => "@"@ + a,
        (None, None) => match str_member(v, "actor_ref"@) {
            Some(r) => r,
            None => "-"@,
        },
    }
}

/// Shows a reference to an actor.
pub fn format_actor_reference_value(value: &Json) -> (r: String)
    ensures
        r@ == actor_reference_text(value@),
{
    match (get_str(value, "display_name"), get_str(value, "alias")) {
        (Some(d), Some(a)) => {
            let mut r = d;
            push_str(&mut r, " (@");
            push_str(&mut r, a.as_str());
            push_str(&mut r, ")");
            r
        },
        (Some(d), None) => d,
        (None, Some(a)) => concat("@", a.as_str()),
        (None, None) => match get_str(value, "actor_ref") {
            Some(r) => r,
            None => "-".to_owned(),
        },
    }
}

/// Whether output goes through a pager.
#[derive(Clone, Copy, Debug, PartialEq, Eq, Structural)]
pub enum PagerPolicy {
    /// Page long output when writing to a terminal.
    Auto,
    Force,
    Never,
}

impl PagerPolicy {
    /// The policy the global flags ask for: never with `--no-pager` or
    /// `--json`, always with `--pager`, else automatic.
    pub fn from_cli(no_pager: bool, json: bool, pager: bool) -> (p: PagerPolicy)
        ensures
            p == if no_pager || json {
                PagerPolicy::Never
            } else if pager {
                PagerPolicy::Force
            } else {
                PagerPolicy::Auto
            },
    {
        if no_pager || json {
            PagerPolicy::Never
        } else if pager {
            PagerPolicy::Force
        } else {
            PagerPolicy::Auto
        }
    }
}

/// Whether text is paged: always when forced, never when disabled, and
/// automatically when the command pages by default and output is a terminal.
pub fn should_page(policy: PagerPolicy, auto_page: bool, stdout_is_terminal: bool) -> (r: bool)
    ensures
        r == match policy {
            PagerPolicy::Never => false,
            PagerPolicy::Force => true,
            PagerPolicy::Auto => auto_page && stdout_is_terminal,
        },
{
    match policy {
        PagerPolicy::Never => false,
        PagerPolicy::Force => true,
        PagerPolicy::Auto => auto_page && stdout_is_terminal,
    }
}

/// The number of whitespace-separated words of a text.
pub open spec fn word_count(s: Seq<char>) -> nat
    decreases s.len(),
{
    if s.len() == 0 {
        0
    } else {
        let starts = !is_unicode_whitespace(s.last()) && (s.len() == 1 || is_unicode_whitespace(
            s[s.len() - 2],
        ));
        word_count(s.drop_last()) + if starts {
            1nat
        } else {
            0nat
        }
    }
}

fn count_words(s: &str) -> (n: usize)
    ensures
        n == word_count(s@) || (n == 2 && word_count(s@) >= 2),
{
    let v = chars_of(s);
    let mut n: usize = 0;
    let mut i: usize = 0;
    while i < v.len()
        invariant
            i <= v@.len(),
            v@ == s@,
            n <= 2,
            n == word_count(s@.take(i as int)) || (n == 2 && word_count(s@.take(i as int)) >= 2),
        decreases v@.len() - i,
    {
        let ghost p = s@.take(i + 1);
        assert(p.drop_last() =~= s@.take(i as int));
        assert(p.last() == v@[i as int]);
        if i > 0 {
            assert(p[p.len() - 2] == v@[i - 1]);
        }
        let starts = !is_whitespace_char(v[i]) && (i == 0 || is_whitespace_char(v[i - 1]));
        if starts && n < 2 {
            n = n + 1;
        }
        i = i + 1;
    }
    assert(s@.take(v@.len() as int) =~= s@);
    n
}

/// Checking the command named by `find --with`: one word naming a command
/// whose first positional argument is a proposition reference.
/// `first_positional` is that command's first positional argument (empty
/// when it has none), or `None` when no command has that name.
pub open spec fn find_with_spec(command_name: Seq<char>, first_positional: Option<Seq<char>>) -> Result<
    (),
    Failure,
> {
    if word_count(command_name) != 1 {
        Err(Failure::User("--with accepts one command name, such as echo or revisions"@))
    } else {
        match first_positional {
            None => Err(Failure::User("unknown command for --with: "@ + command_name)),
            Some(p) => if p == "reference"@ || p == "proposition"@ {
                Ok(())
            } else {
                Err(
                    Failure::User(
                        "--with command "@ + debug_text(command_name)
                            + " must take a proposition reference as its first argument"@,
                    ),
                )
            },
        }
    }
}

/// Checks the command named by `find --with`.
pub fn validate_find_with_command(command_name: &str, first_positional: Option<&str>) -> (r: Result<
    (),
    FactError,
>)
    ensures
        unit_outcome(r) == find_with_spec(
            command_name@,
            match first_positional {
                Some(p) => Some(p@),
                None => None,
            },
        ),
{
    if count_words(command_name) != 1 {
        return Err(
            FactError::User("--with accepts one command name, such as echo or revisions".to_owned()),
        );
    }
    let p = match first_positional {
        Some(p) => p,
        None => {
            return Err(FactError::User(concat("unknown command for --with: ", command_name)));
        },
    };
    if str_eq(p, "reference") || str_eq(p, "proposition") {
        Ok(())
    } else {
        let mut message = concat("--with command ", debug_quoted(command_name).as_str());
        push_str(&mut message, " must take a proposition reference as its first argument");
        Err(FactError::User(message))
    }
}

/// The overview of commands that `fact help` prints.
pub const EXPANDED_HELP: &'static str = r#"A simple, adaptable substrate for trusted knowledge.

Usage: fact [OPTIONS] <COMMAND>

Starting and Selecting Ledgers:
  clone           Copy a shared ledger into a local mirror
  from            Register an existing ledger database as read-only
  here            Initialize project-local Fact configuration
  init            Start a new local ledger for your facts
  new             Create a new local ledger without switching to it
  status          Show which local ledger is active
  use             Switch the ledger used by everyday commands

Propositions:
  echo            Print the current effective text of a proposition
  export          Save a proposition's current text to a file
  find            Find accepted propositions and optionally use one
  import          Create a proposition from Markdown, optionally deciding it immediately
  list            List propositions and their current status
  open            Display the current effective text of a proposition
  propose         Add a new proposition, optionally deciding it immediately
  search          Find propositions containing matching words
  show            Show an overview of a proposition and its related state

Revisions and History:
  archive         Archive a proposition while keeping its history
  history         Show the history of a proposition and its revisions
  revise          Create a new revision of a proposition
  revisions       List the revisions of a proposition
  withdraw        Withdraw a proposition while keeping its history

Discussion and Decisions:
  accept          Mark a proposition as accepted
  comment         Add a comment to a proposition or its discussion
  comments        List comments attached to a proposition or revision
  invite          Invite someone to join a proposition's discussion
  join            Join a discussion using an invitation
  leave           Leave a proposition's discussion
  pending         List propositions that still need a decision
  reject          Mark a proposition as rejected

Conflicts and Reconciliation:
  conflicts       List proposition revision conflicts
  reconcile       Create and inspect reconciliation propositions
  resolve         Resolve a proposition revision conflict

Organization:
  tags            Show, change, and search proposition tags

Identity and Directory:
  as              Create or switch the active user for the current ledger
  capabilities    List grantable permission capabilities
  directory       Manage ledger-scoped friendly identity directory entries
  identity        Manage local identity keys and authority records
  permission      Grant or remove permission to perform ledger actions
  persona         Manage reusable local signing personas
  profile         Manage reusable local actor profile metadata

Sync and Remotes:
  pull            Bring ledger data into a local ledger or file
  push            Send local ledger data to a file or configured remote
  remote          Manage the remotes saved in this local environment

Protocol and Administration:
  commitment      Build and verify compact object commitments
  conformance     Run implementation conformance checks
  decision        Record a participant decision
  deliberation    Inspect and manage formal discussions
  http            Run and administer a Facts HTTP collaboration server
  ledger          Manage local ledgers and configuration
  object          Validate, import, and export signed protocol objects
  proof           Add or remove objects from commitment proofs
  proposition     Inspect signed proposition objects
  query           Run low-level ledger searches
  settlement      Verify a completed settlement
  state           Rebuild local read models
  sync            Exchange ledger bundles with files or remotes

Options:
      --json     Print JSON for scripts and other programs
  -h, --help     Print help
  -V, --version  Print version

More:
  fact help COMMAND        Show help for one command
  fact COMMAND --help      Show help for one command
"#;

/// The overview of commands that `fact help` prints.
pub fn expanded_help_text() -> (r: String)
    ensures
        r@ == EXPANDED_HELP@,
{
    EXPANDED_HELP.to_owned()
}

/// `serde_json::Value::as_u64` on the model: a number written as decimal
/// digits (as `serde_json` writes a non-negative integer) within `u64`.
pub open spec fn json_u64(v: JsonValue) -> Option<u64> {
    match v {
        JsonValue::Number(t) => match digits_value(t) {
            Some(n) => if n <= u64::MAX {
                Some(n as u64)
            } else {
                None
            },
            None => None,
        },
        _ => None,
    }
}

/// A count member of a document, 0 when it is not a `u64`.
pub open spec fn count_of(v: JsonValue, key: Seq<char>) -> u64 {
    match member(v, key) {
        Some(m) => match json_u64(m) {
            Some(n) => n,
            None => 0,
        },
        None => 0,
    }
}

fn number_u64(v: &Json) -> (r: Option<u64>)
    ensures
        r == json_u64(v@),
{
    match v {
        Json::Number(t) => {
            let chars = chars_of(t.as_str());
            if chars.len() == 0 {
                return None;
            }
            let mut value: u64 = 0;
            let mut i: usize = 0;
            while i < chars.len()
                invariant
                    i <= chars@.len(),
                    chars@ == t@,
                    v@ == JsonValue::Number(t@),
                    chars@.len() > 0,
                    i == 0 ==> value == 0,
                    i > 0 ==> digits_value(t@.take(i as int)) == Some(value as int),
                decreases chars@.len() - i,
            {
                let c = chars[i];
                assert(t@.take(i + 1).drop_last() =~= t@.take(i as int));
                assert(t@.take(i + 1).last() == c);
                if !('0' <= c && c <= '9') {
                    proof {
                        lemma_digits_none_prefix(t@, i as int + 1);
                    }
                    return None;
                }
                let d = (c as u32 - 48) as u64;
                assert(d as int == c as int - 48);
                assert(digits_value(t@.take(i + 1)) == Some(value * 10 + d));
                if value > (18446744073709551615u64 - d) / 10 {
                    proof {
                        assert(value * 10 + d > u64::MAX) by (nonlinear_arith)
                            requires
                                value > (18446744073709551615u64 - d) / 10,
                                d <= 9,
                        ;
                        lemma_digits_big_prefix(t@, i as int + 1);
                    }
                    return None;
                }
                assert(value * 10 + d <= u64::MAX) by (nonlinear_arith)
                    requires
                        value <= (18446744073709551615u64 - d) / 10,
                        d <= 9,
                ;
                value = value * 10 + d;
                i = i + 1;
            }
            assert(t@.take(chars@.len() as int) =~= t@);
            Some(value)
        },
        _ => None,
    }
}

proof fn lemma_digits_none_prefix(s: Seq<char>, n: int)
    requires
        0 < n <= s.len(),
        digits_value(s.take(n)) is None,
    ensures
        digits_value(s) is None,
    decreases s.len(),
{
    if n < s.len() {
        assert(s.drop_last().take(n) =~= s.take(n));
        lemma_digits_none_prefix(s.drop_last(), n);
    } else {
        assert(s.take(n) =~= s);
    }
}

proof fn lemma_digits_big_prefix(s: Seq<char>, n: int)
    requires
        0 < n <= s.len(),
        digits_value(s.take(n)) matches Some(v) && v > u64::MAX,
    ensures
        digits_value(s) matches Some(w) ==> w > u64::MAX,
    decreases s.len(),
{
    if n < s.len() {
        assert(s.drop_last().take(n) =~= s.take(n));
        lemma_digits_big_prefix(s.drop_last(), n);
        lemma_digits_nonneg(s.drop_last());
    } else {
        assert(s.take(n) =~= s);
    }
}

proof fn lemma_digits_nonneg(s: Seq<char>)
    ensures
        digits_value(s) matches Some(v) ==> v >= 0,
    decreases s.len(),
{
    if s.len() > 1 {
        lemma_digits_nonneg(s.drop_last());
    }
}

pub(crate) fn count_text(v: &Json, key: &str) -> (s: String)
    ensures
        s@ == decimal(count_of(v@, key@) as nat),
{
    match get(v, key) {
        Some(m) => match number_u64(m) {
            Some(n) => decimal_text_u64(n),
            None => decimal_text_u64(0),
        },
        None => decimal_text_u64(0),
    }
}

/// How a ledger's proposition counts are shown.
pub open spec fn counts_text(v: JsonValue) -> Seq<char> {
    decimal(count_of(v, "total"@) as nat) + " total, "@ + decimal(count_of(v, "accepted"@) as nat)
        + " accepted, "@ + decimal(count_of(v, "pending"@) as nat) + " pending, "@ + decimal(
        count_of(v, "rejected"@) as nat,
    ) + " rejected, "@ + decimal(count_of(v, "contested"@) as nat) + " contested, "@ + decimal(
        count_of(v, "withdrawn"@) as nat,
    ) + " withdrawn, "@ + decimal(count_of(v, "archived"@) as nat) + " archived, "@ + decimal(
        count_of(v, "update_pending"@) as nat,
    ) + " update pending"@
}

/// Shows a ledger's proposition counts.
pub fn format_ledger_proposition_counts(counts: &Json) -> (s: String)
    ensures
        s@ == counts_text(counts@),
{
    let mut s = count_text(counts, "total");
    push_str(&mut s, " total, ");
    push_str(&mut s, count_text(counts, "accepted").as_str());
    push_str(&mut s, " accepted, ");
    push_str(&mut s, count_text(counts, "pending").as_str());
    push_str(&mut s, " pending, ");
    push_str(&mut s, count_text(counts, "rejected").as_str());
    push_str(&mut s, " rejected, ");
    push_str(&mut s, count_text(counts, "contested").as_str());
    push_str(&mut s, " contested, ");
    push_str(&mut s, count_text(counts, "withdrawn").as_str());
    push_str(&mut s, " withdrawn, ");
    push_str(&mut s, count_text(counts, "archived").as_str());
    push_str(&mut s, " archived, ");
    push_str(&mut s, count_text(counts, "update_pending").as_str());
    push_str(&mut s, " update pending");
    s
}

} // verus!
