//! `fact as`: acting as another actor, and what the command decides from
//! its input before it touches any ledger.

use vstd::prelude::*;
use crate::errors::{FactError, Failure};
use crate::names::portable_char;
use crate::text::{chars_of, is_ascii_alnum_char, push_char, push_str};

verus! {

/// The options of `fact as`.
#[derive(Debug)]
pub struct Input {
    pub name: Option<String>,
    pub alias: Option<String>,
    pub self_actor: bool,
    pub actor_type: Option<String>,
    pub profile: Option<String>,
    pub role: Option<String>,
    pub source: Option<String>,
    pub verified_by: Option<String>,
    /// `--home`, with or without a directory.
    pub home: Option<Option<String>>,
    pub print_env: bool,
    pub use_home: bool,
    pub permission: Vec<String>,
    pub participate: bool,
    pub no_create: bool,
    pub update_directory: bool,
    pub ledger: Option<String>,
}

/// A saved actor profile.
#[derive(Debug)]
pub struct ActorProfile {
    pub display_name: String,
    pub alias: Option<String>,
    pub actor_type: String,
    pub role: Option<String>,
}

/// Whether `fact as` only reports who the current signer is: no option that
/// names, creates or changes an actor was given.
pub open spec fn reports_signer_spec(input: Input) -> bool {
    &&& input.name is None
    &&& input.alias is None
    &&& !input.self_actor
    &&& input.actor_type is None
    &&& input.profile is None
    &&& input.role is None
    &&& input.source is None
    &&& input.verified_by is None
    &&& input.home is None
    &&& !input.print_env
    &&& !input.use_home
    &&& input.permission@.len() == 0
    &&& !input.participate
    &&& !input.no_create
    &&& !input.update_directory
}

/// Whether `fact as` only reports the current signer.
pub fn reports_current_signer(input: &Input) -> (r: bool)
    ensures
        r == reports_signer_spec(*input),
{
    input.name.is_none() && input.alias.is_none() && !input.self_actor && input.actor_type.is_none()
        && input.profile.is_none() && input.role.is_none() && input.source.is_none()
        && input.verified_by.is_none() && input.home.is_none() && !input.print_env
        && !input.use_home && input.permission.len() == 0 && !input.participate
        && !input.no_create && !input.update_directory
}

pub open spec fn ov(o: Option<String>) -> Option<Seq<char>> {
    match o {
        Some(s) => Some(s@),
        None => None,
    }
}

/// The actor `fact as` asks for: display name, alias, and whether only an
/// alias was given. A profile fills in what the options leave out (its
/// alias, else its name, is the alias); without one, a lone name or alias
/// is the alias.
pub open spec fn requested_spec(
    name: Option<Seq<char>>,
    alias: Option<Seq<char>>,
    profile: Option<(Seq<char>, Seq<char>, Option<Seq<char>>)>,
) -> Result<(Option<Seq<char>>, Seq<char>, bool), Failure> {
    match profile {
        Some((profile_name, display_name, profile_alias)) => {
            let d = match name {
                Some(n) => n,
                None => display_name,
            };
            let a = match alias {
                Some(a) => a,
                None => match profile_alias {
                    Some(pa) => pa,
                    None => profile_name,
                },
            };
            Ok((Some(d), a, false))
        },
        None => match (name, alias) {
            (Some(n), Some(a)) => Ok((Some(n), a, false)),
            (Some(a), None) => Ok((None, a, true)),
            (None, Some(a)) => Ok((None, a, true)),
            (None, None) => Err(
                Failure::User("fact as requires an alias or display name with --alias"@),
            ),
        },
    }
}

/// Works out the actor `fact as` asks for.
pub fn requested_actor(input: &Input, profile: Option<(&str, &ActorProfile)>) -> (r: Result<
    (Option<String>, String, bool),
    FactError,
>)
    ensures
        match requested_spec(
            ov(input.name),
            ov(input.alias),
            match profile {
                Some((n, p)) => Some((n@, p.display_name@, ov(p.alias))),
                None => None,
            },
        ) {
            Ok((d, a, only)) => r matches Ok((rd, ra, ronly)) && ov(rd) == d && ra@ == a && ronly
                == only,
            Err(f) => r matches Err(e) && e@ == f,
        },
{
    match profile {
        Some((profile_name, p)) => {
            let display_name = match &input.name {
                Some(n) => n.clone(),
                None => p.display_name.clone(),
            };
            let alias = match &input.alias {
                Some(a) => a.clone(),
                None => match &p.alias {
                    Some(pa) => pa.clone(),
                    None => profile_name.to_owned(),
                },
            };
            Ok((Some(display_name), alias, false))
        },
        None => match (&input.name, &input.alias) {
            (Some(n), Some(a)) => Ok((Some(n.clone()), a.clone(), false)),
            (Some(a), None) => Ok((None, a.clone(), true)),
            (None, Some(a)) => Ok((None, a.clone(), true)),
            (None, None) => Err(
                FactError::User("fact as requires an alias or display name with --alias".to_owned()),
            ),
        },
    }
}

/// A character a shell word can hold unquoted.
pub open spec fn shell_safe(c: char) -> bool {
    is_ascii_alnum_char(c) || c == '/' || c == '.' || c == '-' || c == '_'
}

/// `'` written inside single quotes: `'\''`.
pub open spec fn quote_escaped(s: Seq<char>) -> Seq<char>
    decreases s.len(),
{
    if s.len() == 0 {
        s
    } else if s.last() == '\'' {
        quote_escaped(s.drop_last()) + "'\\''"@
    } else {
        quote_escaped(s.drop_last()).push(s.last())
    }
}

/// A path as a shell word: as it is when every character is safe, else in
/// single quotes.
pub open spec fn shell_word(path: Seq<char>) -> Seq<char> {
    if forall|i: int| 0 <= i < path.len() ==> shell_safe(#[trigger] path[i]) {
        path
    } else {
        "'"@ + quote_escaped(path) + "'"@
    }
}

/// How a POSIX shell reads a word, as far as the words written here need:
/// outside quotes, a safe character stands for itself and `\` takes the
/// next character literally; `'` opens and closes a single-quoted run in
/// which every character stands for itself. `None` where the shell could
/// read the word otherwise (any other character outside quotes, an
/// unclosed quote, a trailing `\`), so no expansion or splitting happens
/// on a word it reads.
pub open spec fn sh_read(w: Seq<char>, quoted: bool) -> Option<Seq<char>>
    decreases w.len(),
{
    if w.len() == 0 {
        if quoted {
            None
        } else {
            Some(Seq::empty())
        }
    } else {
        let c = w[0];
        let rest = w.drop_first();
        if quoted {
            if c == '\'' {
                sh_read(rest, false)
            } else {
                prepend(seq![c], sh_read(rest, true))
            }
        } else if c == '\'' {
            sh_read(rest, true)
        } else if c == '\\' {
            if rest.len() == 0 {
                None
            } else {
                prepend(seq![rest[0]], sh_read(rest.drop_first(), false))
            }
        } else if shell_safe(c) {
            prepend(seq![c], sh_read(rest, false))
        } else {
            None
        }
    }
}

pub open spec fn prepend(p: Seq<char>, o: Option<Seq<char>>) -> Option<Seq<char>> {
    match o {
        Some(x) => Some(p + x),
        None => None,
    }
}

proof fn lemma_quote_escaped_len(p: Seq<char>)
    ensures
        quote_escaped(p).len() >= p.len(),
    decreases p.len(),
{
    if p.len() > 0 {
        lemma_quote_escaped_len(p.drop_last());
        reveal_strlit("'\\''");
    }
}

proof fn lemma_read_safe(p: Seq<char>)
    requires
        forall|i: int| 0 <= i < p.len() ==> shell_safe(#[trigger] p[i]),
    ensures
        sh_read(p, false) == Some(p),
    decreases p.len(),
{
    if p.len() > 0 {
        assert(shell_safe(p[0]));
        assert forall|i: int| 0 <= i < p.drop_first().len() implies shell_safe(
            #[trigger] p.drop_first()[i],
        ) by {
            assert(p.drop_first()[i] == p[i + 1]);
        }
        lemma_read_safe(p.drop_first());
        assert(seq![p[0]] + p.drop_first() =~= p);
    }
}

proof fn lemma_read_quoted(p: Seq<char>, s: Seq<char>)
    ensures
        sh_read(quote_escaped(p) + s, true) == prepend(p, sh_read(s, true)),
    decreases p.len(),
{
    if p.len() == 0 {
        assert(quote_escaped(p) + s =~= s);
        match sh_read(s, true) {
            Some(x) => assert(p + x =~= x),
            None => {},
        }
    } else {
        let front = p.drop_last();
        let c = p.last();
        let x = if c == '\'' {
            "'\\''"@
        } else {
            seq![c]
        };
        assert(quote_escaped(p) == quote_escaped(front) + x);
        assert(quote_escaped(p) + s =~= quote_escaped(front) + (x + s));
        lemma_read_quoted(front, x + s);
        if c == '\'' {
            reveal_strlit("'\\''");
            reveal_strlit("\\''");
            reveal_strlit("'");
            let w = x + s;
            assert(w[0] == '\'');
            assert(w.drop_first() =~= "\\''"@ + s);
            let w1 = w.drop_first();
            assert(w1[0] == '\\');
            assert(w1.drop_first()[0] == '\'');
            assert(w1.drop_first().drop_first() =~= "'"@ + s);
            let w2 = w1.drop_first().drop_first();
            assert(w2[0] == '\'');
            assert(w2.drop_first() =~= s);
            assert(sh_read(w2, false) == sh_read(s, true));
            assert(sh_read(w1, false) == prepend(seq!['\''], sh_read(w2, false)));
            assert(sh_read(w, true) == sh_read(w1, false));
            assert(sh_read(w, true) == prepend(seq!['\''], sh_read(s, true)));
        } else {
            let w = x + s;
            assert(w[0] == c);
            assert(w.drop_first() =~= s);
        }
        match sh_read(s, true) {
            Some(y) => {
                assert(front + (seq![c] + y) =~= p + y);
            },
            None => {},
        }
    }
}

/// A shell reads the word [`shell_word`] writes for a path back as exactly
/// that path, with no expansion and no splitting; the word is left
/// unquoted only when every character is safe. An empty path is written as
/// an empty word, which a shell does not read as a word at all, so it is
/// left out.
pub proof fn law_shell_word_reads_back(path: Seq<char>)
    requires
        path.len() > 0,
    ensures
        sh_read(shell_word(path), false) == Some(path),
        shell_word(path) == path <==> forall|i: int|
            0 <= i < path.len() ==> shell_safe(#[trigger] path[i]),
{
    if forall|i: int| 0 <= i < path.len() ==> shell_safe(#[trigger] path[i]) {
        lemma_read_safe(path);
    } else {
        reveal_strlit("'");
        let w = "'"@ + quote_escaped(path) + "'"@;
        assert(w[0] == '\'');
        assert(w.drop_first() =~= quote_escaped(path) + "'"@);
        lemma_read_quoted(path, "'"@);
        let q = "'"@;
        assert(q[0] == '\'');
        assert(q.drop_first() =~= Seq::<char>::empty());
        assert(sh_read(q.drop_first(), false) == Some(Seq::<char>::empty()));
        assert(sh_read(q, true) == Some(Seq::<char>::empty()));
        assert(path + Seq::<char>::empty() =~= path);
        assert(shell_word(path) != path) by {
            lemma_quote_escaped_len(path);
        }
    }
}

/// Writes a path as a shell word.
pub fn shell_escape(path: &str) -> (r: String)
    ensures
        r@ == shell_word(path@),
{
    let v = chars_of(path);
    let mut safe = true;
    let mut i: usize = 0;
    while i < v.len()
        invariant
            i <= v@.len(),
            v@ == path@,
            safe == (forall|j: int| 0 <= j < i ==> shell_safe(#[trigger] v@[j])),
        decreases v@.len() - i,
    {
        let c = v[i];
        let u = c as u32;
        let ok = (48 <= u && u <= 57) || (65 <= u && u <= 90) || (97 <= u && u <= 122) || c == '/'
            || c == '.' || c == '-' || c == '_';
        if !ok {
            assert(!shell_safe(v@[i as int]));
        }
        safe = safe && ok;
        i = i + 1;
    }
    if safe {
        return path.to_owned();
    }
    let mut r = String::new();
    push_char(&mut r, '\'');
    proof {
        reveal_strlit("'");
        assert(path@.take(0) =~= Seq::<char>::empty());
        assert(r@ =~= "'"@ + quote_escaped(path@.take(0)));
    }
    let mut i: usize = 0;
    while i < v.len()
        invariant
            i <= v@.len(),
            v@ == path@,
            r@ == "'"@ + quote_escaped(path@.take(i as int)),
        decreases v@.len() - i,
    {
        assert(path@.take(i + 1).drop_last() =~= path@.take(i as int));
        let c = v[i];
        if c == '\'' {
            push_str(&mut r, "'\\''");
        } else {
            push_char(&mut r, c);
        }
        i = i + 1;
    }
    assert(path@.take(v@.len() as int) =~= path@);
    push_char(&mut r, '\'');
    proof {
        reveal_strlit("'");
    }
    r
}

} // verus!
