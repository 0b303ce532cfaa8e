use vstd::prelude::*;

use crate::paths::base_name;
use crate::paths::base_name_of;

verus! {

/// A character the linter keeps as-is: an ASCII letter, an ASCII digit,
/// an underscore, or a period.
pub open spec fn is_alnum_char(c: char) -> bool {
    ('a' <= c && c <= 'z') || ('A' <= c && c <= 'Z') || ('0' <= c && c <= '9')
}

/// The Unicode white space characters, as std documents them for
/// `char::is_whitespace`.
pub open spec fn is_whitespace_char(c: char) -> bool {
    ||| c == '\t'
    ||| c == '\n'
    ||| c == '\u{000B}'
    ||| c == '\u{000C}'
    ||| c == '\r'
    ||| c == ' '
    ||| c == '\u{0085}'
    ||| c == '\u{00A0}'
    ||| c == '\u{1680}'
    ||| ('\u{2000}' <= c && c <= '\u{200A}')
    ||| c == '\u{2028}'
    ||| c == '\u{2029}'
    ||| c == '\u{202F}'
    ||| c == '\u{205F}'
    ||| c == '\u{3000}'
}

/// What becomes of one character of a name: white space and hyphens turn
/// into an underscore, letters, digits, underscores and periods stay, and
/// everything else is dropped.
pub open spec fn lint_char(c: char) -> Option<char> {
    if is_whitespace_char(c) || c == '-' {
        Some('_')
    } else if is_alnum_char(c) || c == '_' || c == '.' {
        Some(c)
    } else {
        None
    }
}

/// The whole linted form of a name: each character is substituted or
/// dropped by `lint_char`, in the original order.
pub open spec fn lint_seq(s: Seq<char>) -> Seq<char>
    decreases s.len(),
{
    if s.len() == 0 {
        Seq::empty()
    } else {
        match lint_char(s[0]) {
            Some(c) => seq![c] + lint_seq(s.drop_first()),
            None => lint_seq(s.drop_first()),
        }
    }
}

/// Linting a name one character longer appends that character's image.
proof fn lemma_lint_seq_push(s: Seq<char>, c: char)
    ensures
        lint_seq(s.push(c)) == lint_seq(s) + (match lint_char(c) {
            Some(d) => seq![d],
            None => Seq::<char>::empty(),
        }),
    decreases s.len(),
{
    let image = (match lint_char(c) {
        Some(d) => seq![d],
        None => Seq::<char>::empty(),
    });
    if s.len() == 0 {
        assert(s.push(c) =~= seq![c]);
        assert(s.push(c).drop_first() =~= Seq::<char>::empty());
        assert(s.push(c)[0] == c);
        assert(lint_seq(Seq::<char>::empty()) == Seq::<char>::empty());
        assert(lint_seq(s) == Seq::<char>::empty());
        match lint_char(c) {
            Some(d) => {
                assert(lint_seq(s.push(c)) == seq![d] + Seq::<char>::empty());
                assert(lint_seq(s.push(c)) =~= lint_seq(s) + image);
            },
            None => {
                assert(lint_seq(s.push(c)) =~= lint_seq(s) + image);
            },
        }
    } else {
        assert(s.push(c).drop_first() =~= s.drop_first().push(c));
        lemma_lint_seq_push(s.drop_first(), c);
        assert(lint_seq(s.push(c)) =~= lint_seq(s) + image);
    }
}

/// A name whose every character is its own image under the rule lints to
/// itself.
proof fn lemma_lint_fixed(t: Seq<char>)
    requires
        forall|i: int| 0 <= i < t.len() ==> lint_char(#[trigger] t[i]) == Some(t[i]),
    ensures
        lint_seq(t) == t,
    decreases t.len(),
{
    if t.len() == 0 {
        assert(lint_seq(t) =~= t);
    } else {
        assert(forall|i: int|
            0 <= i < t.drop_first().len() ==> lint_char(#[trigger] t.drop_first()[i]) == Some(
                t.drop_first()[i],
            ));
        lemma_lint_fixed(t.drop_first());
        assert(lint_char(t[0]) == Some(t[0]));
        assert(lint_seq(t) =~= seq![t[0]] + t.drop_first());
        assert(seq![t[0]] + t.drop_first() =~= t);
    }
}

/// Every character of a linted name is its own image under the rule.
proof fn lemma_lint_chars_kept(s: Seq<char>)
    ensures
        forall|i: int|
            0 <= i < lint_seq(s).len() ==> lint_char(#[trigger] lint_seq(s)[i]) == Some(
                lint_seq(s)[i],
            ),
    decreases s.len(),
{
    if s.len() == 0 {
    } else {
        lemma_lint_chars_kept(s.drop_first());
        match lint_char(s[0]) {
            Some(d) => {
                assert(lint_seq(s) == seq![d] + lint_seq(s.drop_first()));
                assert(lint_char(d) == Some(d));
                assert forall|i: int| 0 <= i < lint_seq(s).len() implies lint_char(
                    #[trigger] lint_seq(s)[i],
                ) == Some(lint_seq(s)[i]) by {
                    if i == 0 {
                        assert(lint_seq(s)[0] == d);
                    } else {
                        assert(lint_seq(s)[i] == lint_seq(s.drop_first())[i - 1]);
                    }
                }
            },
            None => {
                assert(lint_seq(s) == lint_seq(s.drop_first()));
            },
        }
    }
}

/// Law: the Name Linter is idempotent — linting an already-linted name
/// changes nothing.
pub proof fn lemma_lint_idempotent(s: Seq<char>)
    ensures
        lint_seq(lint_seq(s)) == lint_seq(s),
{
    lemma_lint_chars_kept(s);
    lemma_lint_fixed(lint_seq(s));
}

/// Law: a name made of ASCII letters, ASCII digits, underscores and
/// periods alone is already clean and lints to itself.
pub proof fn lemma_clean_name_unchanged(s: Seq<char>)
    requires
        forall|i: int|
            0 <= i < s.len() ==> is_alnum_char(#[trigger] s[i]) || s[i] == '_' || s[i] == '.',
    ensures
        lint_seq(s) == s,
{
    assert forall|i: int| 0 <= i < s.len() implies lint_char(#[trigger] s[i]) == Some(s[i]) by {
        assert(!is_whitespace_char(s[i]));
    }
    lemma_lint_fixed(s);
}

/// Law: a white space character or a hyphen is substituted with an
/// underscore, never dropped.
pub proof fn lemma_ws_hyphen_to_underscore(c: char)
    requires
        is_whitespace_char(c) || c == '-',
    ensures
        lint_char(c) == Some('_'),
{
}

/// Law: a character that is not alphanumeric, an underscore, a period,
/// white space or a hyphen is dropped, not substituted.
pub proof fn lemma_foreign_char_dropped(c: char)
    requires
        !is_alnum_char(c),
        c != '_',
        c != '.',
        !is_whitespace_char(c),
        c != '-',
    ensures
        lint_char(c) is None,
{
}

/// Whether the given character survives the per-character rule.
pub fn lint_char_exec(c: char) -> (r: Option<char>)
    ensures
        r == lint_char(c),
{
    if c == '\t' || c == '\n' || c == '\u{000B}' || c == '\u{000C}' || c == '\r' || c == ' '
        || c == '\u{0085}' || c == '\u{00A0}' || c == '\u{1680}'
        || ('\u{2000}' <= c && c <= '\u{200A}') || c == '\u{2028}' || c == '\u{2029}'
        || c == '\u{202F}' || c == '\u{205F}' || c == '\u{3000}' || c == '-' {
        Some('_')
    } else if ('a' <= c && c <= 'z') || ('A' <= c && c <= 'Z') || ('0' <= c && c <= '9')
        || c == '_' || c == '.' {
        Some(c)
    } else {
        None
    }
}

/// Relies on String::push: appends the character to the end of the string.
#[verifier::external_body]
fn push_char(s: &mut String, c: char)
    ensures
        final(s)@ == old(s)@.push(c),
{
    s.push(c)
}

/// The Name Linter: given a base name, answers `None` where the name is
/// already clean, and the sanitized replacement otherwise.
pub fn lint_name(name: &str) -> (r: Option<String>)
    ensures
        r is Some <==> lint_seq(name@) != name@,
        (r matches Some(l) ==> l@ == lint_seq(name@)),
{
    let n = name.unicode_len();
    let mut out = String::new();
    let mut i: usize = 0;
    while i < n
        invariant
            i <= n,
            n == name@.len(),
            out@ == lint_seq(name@.subrange(0, i as int)),
        decreases n - i,
    {
        let c = name.get_char(i);
        match lint_char_exec(c) {
            Some(d) => push_char(&mut out, d),
            None => (),
        }
        proof {
            lemma_lint_seq_push(name@.subrange(0, i as int), name@[i as int]);
            assert(name@.subrange(0, i + 1 as int) =~= name@.subrange(0, i as int).push(
                name@[i as int],
            ));
        }
        i = i + 1;
    }
    proof {
        assert(name@.subrange(0, n as int) =~= name@);
    }
    let original = name.to_owned();
    if out == original {
        None
    } else {
        Some(out)
    }
}

/// Lint the base name of a path: `None` where the base name is already
/// clean, and otherwise the sanitized replacement base name.
pub fn lint_path(path: &str) -> (r: Option<String>)
    ensures
        r is Some <==> lint_seq(base_name_of(path@)) != base_name_of(path@),
        (r matches Some(l) ==> l@ == lint_seq(base_name_of(path@))),
{
    let b = base_name(path);
    lint_name(b.as_str())
}

} // verus!
