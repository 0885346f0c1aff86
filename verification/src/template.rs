//! Templates with balanced placeholders, and what the scanner finds in them.

use crate::var::{expand_spec, placeholder, scan, var_names};
use vstd::prelude::*;

verus! {

/// A piece of a template.
pub enum Piece {
    /// Text without a brace.
    Text(Seq<char>),
    /// The escape `{{`.
    Open,
    /// The escape `}}`.
    Close,
    /// The placeholder of a name without a brace.
    Var(Seq<char>),
}

/// Whether `s` holds no brace.
pub open spec fn brace_free(s: Seq<char>) -> bool {
    forall|i: int| 0 <= i < s.len() ==> s[i] != '{' && s[i] != '}'
}

/// Whether the text and the names of the pieces hold no brace.
pub open spec fn balanced(pieces: Seq<Piece>) -> bool {
    forall|i: int|
        0 <= i < pieces.len() ==> match #[trigger] pieces[i] {
            Piece::Text(text) => brace_free(text),
            Piece::Var(name) => brace_free(name),
            _ => true,
        }
}

/// A piece as it is written.
pub open spec fn written(piece: Piece) -> Seq<char> {
    match piece {
        Piece::Text(text) => text,
        Piece::Open => seq!['{', '{'],
        Piece::Close => seq!['}', '}'],
        Piece::Var(name) => placeholder(name),
    }
}

/// The template that the pieces make, one written behind the other.
pub open spec fn render(pieces: Seq<Piece>) -> Seq<char>
    decreases pieces.len(),
{
    if pieces.len() == 0 {
        Seq::empty()
    } else {
        written(pieces[0]) + render(pieces.skip(1))
    }
}

/// The names of the placeholders among the pieces, in order.
pub open spec fn names(pieces: Seq<Piece>) -> Seq<Seq<char>>
    decreases pieces.len(),
{
    if pieces.len() == 0 {
        Seq::empty()
    } else {
        match pieces[0] {
            Piece::Var(name) => seq![name] + names(pieces.skip(1)),
            _ => names(pieces.skip(1)),
        }
    }
}

/// The buffer after `text` has gone to it.
pub open spec fn fed(buf: Option<Seq<char>>, text: Seq<char>) -> Option<Seq<char>> {
    match buf {
        Some(name) => Some(name + text),
        None => None,
    }
}

/// Over `n` characters that are no braces the scanner emits nothing: they go
/// to the open buffer.
pub proof fn lemma_scan_plain(s: Seq<char>, i: int, n: int, buf: Option<Seq<char>>)
    requires
        0 <= i,
        0 <= n,
        i + n <= s.len(),
        forall|k: int| i <= k < i + n ==> s[k] != '{' && s[k] != '}',
    ensures
        scan(s, i, buf) == scan(s, i + n, fed(buf, s.subrange(i, i + n))),
    decreases n,
{
    if n == 0 {
        assert(fed(buf, s.subrange(i, i)) == buf) by {
            match buf {
                Some(name) => {
                    assert(name + s.subrange(i, i) =~= name);
                },
                None => {},
            }
        }
    } else {
        let next = match buf {
            Some(name) => Some(name.push(s[i])),
            None => None,
        };
        lemma_scan_plain(s, i + 1, n - 1, next);
        assert(fed(next, s.subrange(i + 1, i + n)) == fed(buf, s.subrange(i, i + n))) by {
            match buf {
                Some(name) => {
                    assert(name.push(s[i]) + s.subrange(i + 1, i + n) =~= name + s.subrange(
                        i,
                        i + n,
                    ));
                },
                None => {},
            }
        }
    }
}

/// Balanced pieces without the first of them are balanced.
proof fn lemma_rest_is_balanced(pieces: Seq<Piece>)
    requires
        pieces.len() > 0,
        balanced(pieces),
    ensures
        balanced(pieces.skip(1)),
{
    let rest = pieces.skip(1);
    assert forall|k: int| 0 <= k < rest.len() implies match #[trigger] rest[k] {
        Piece::Text(text) => brace_free(text),
        Piece::Var(name) => brace_free(name),
        _ => true,
    } by {
        assert(rest[k] == pieces[k + 1]);
    }
}

/// What follows the first piece where the pieces stand at position `i`.
proof fn lemma_first_piece(s: Seq<char>, i: int, pieces: Seq<Piece>)
    requires
        0 <= i <= s.len(),
        pieces.len() > 0,
        s.skip(i) == render(pieces),
    ensures
        i + written(pieces[0]).len() <= s.len(),
        s.subrange(i, i + written(pieces[0]).len()) == written(pieces[0]),
        s.skip(i + written(pieces[0]).len()) == render(pieces.skip(1)),
{
    let first = written(pieces[0]);
    let rest = render(pieces.skip(1));
    assert(s.skip(i).len() == first.len() + rest.len());
    assert(s.subrange(i, i + first.len()) =~= s.skip(i).subrange(0, first.len() as int));
    assert((first + rest).subrange(0, first.len() as int) =~= first);
    assert(s.skip(i + first.len()) =~= s.skip(i).skip(first.len() as int));
    assert((first + rest).skip(first.len() as int) =~= rest);
}

/// With no name open, the scanner finds in balanced pieces the names of their
/// placeholders.
proof fn lemma_scan_idle(s: Seq<char>, i: int, pieces: Seq<Piece>)
    requires
        0 <= i <= s.len(),
        s.skip(i) == render(pieces),
        balanced(pieces),
    ensures
        scan(s, i, None) == names(pieces),
    decreases pieces.len(), 0int,
{
    if pieces.len() == 0 {
        assert(s.skip(i).len() == 0);
    } else {
        let rest = pieces.skip(1);
        lemma_first_piece(s, i, pieces);
        lemma_rest_is_balanced(pieces);
        let w = written(pieces[0]);
        let here = s.subrange(i, i + w.len());
        assert forall|k: int| i <= k < i + w.len() implies s[k] == w[k - i] by {
            assert(here[k - i] == s[k]);
        }
        match pieces[0] {
            Piece::Text(text) => {
                lemma_scan_plain(s, i, text.len() as int, None);
                lemma_scan_idle(s, i + text.len(), rest);
            },
            Piece::Open => {
                assert(s[i] == w[0] && s[i + 1] == w[1]);
                lemma_scan_idle(s, i + 2, rest);
            },
            Piece::Close => {
                assert(s[i] == w[0] && s[i + 1] == w[1]);
                lemma_scan_idle(s, i + 2, rest);
            },
            Piece::Var(name) => {
                assert(w.len() == name.len() + 2);
                assert(s[i] == w[0]);
                assert(s[i + 1] == w[1]);
                assert(w[1] != '{') by {
                    if name.len() > 0 {
                        assert(w[1] == name[0]);
                    }
                }
                assert forall|k: int| i + 1 <= k < i + 1 + name.len() implies s[k] != '{' && s[k]
                    != '}' by {
                    assert(s[k] == w[k - i]);
                    assert(w[k - i] == name[k - i - 1]);
                }
                lemma_scan_plain(s, i + 1, name.len() as int, Some(Seq::empty()));
                assert(Seq::<char>::empty() + s.subrange(i + 1, i + 1 + name.len()) =~= name) by {
                    assert forall|k: int| 0 <= k < name.len() implies s.subrange(
                        i + 1,
                        i + 1 + name.len(),
                    )[k] == name[k] by {
                        assert(s[i + 1 + k] == w[k + 1]);
                    }
                }
                assert(s[i + 1 + name.len()] == w[name.len() as int + 1]);
                lemma_scan_closing(s, i + 1 + name.len(), rest, name);
            },
        }
    }
}

/// At the `}` that closes an open name, with balanced pieces behind it, the
/// scanner emits that name and then the names of the pieces: however many
/// escapes `}}` follow, the last `}` of the run closes the name.
proof fn lemma_scan_closing(s: Seq<char>, i: int, pieces: Seq<Piece>, name: Seq<char>)
    requires
        0 <= i < s.len(),
        s[i] == '}',
        s.skip(i + 1) == render(pieces),
        balanced(pieces),
    ensures
        scan(s, i, Some(name)) == seq![name] + names(pieces),
    decreases pieces.len(), 1int,
{
    if pieces.len() == 0 {
        assert(s.skip(i + 1).len() == 0);
        assert(seq![name] + Seq::<Seq<char>>::empty() =~= seq![name] + names(pieces));
    } else {
        let rest = pieces.skip(1);
        lemma_first_piece(s, i + 1, pieces);
        lemma_rest_is_balanced(pieces);
        let w = written(pieces[0]);
        let here = s.subrange(i + 1, i + 1 + w.len());
        assert forall|k: int| i + 1 <= k < i + 1 + w.len() implies s[k] == w[k - i - 1] by {
            assert(here[k - i - 1] == s[k]);
        }
        match pieces[0] {
            Piece::Text(text) => {
                if text.len() == 0 {
                    assert(s.skip(i + 1) == render(rest));
                    lemma_scan_closing(s, i, rest, name);
                } else {
                    assert(s[i + 1] == w[0]);
                    assert(scan(s, i, Some(name)) == seq![name] + scan(s, i + 1, None));
                    lemma_scan_idle(s, i + 1, pieces);
                }
            },
            Piece::Open => {
                assert(s[i + 1] == w[0]);
                assert(scan(s, i, Some(name)) == seq![name] + scan(s, i + 1, None));
                lemma_scan_idle(s, i + 1, pieces);
            },
            Piece::Var(_) => {
                assert(s[i + 1] == w[0]);
                assert(scan(s, i, Some(name)) == seq![name] + scan(s, i + 1, None));
                lemma_scan_idle(s, i + 1, pieces);
            },
            Piece::Close => {
                assert(s[i + 1] == w[0]);
                assert(s[i + 2] == w[1]);
                assert(scan(s, i, Some(name)) == scan(s, i + 2, Some(name)));
                assert(s.skip(i + 3) == render(rest));
                lemma_scan_closing(s, i + 2, rest, name);
            },
        }
    }
}

/// In a template of balanced pieces the scanner finds exactly the names of
/// the placeholders, in their order: the escapes `{{` and `}}` open and close
/// no name, wherever they stand.
pub proof fn lemma_balanced_template(pieces: Seq<Piece>)
    requires
        balanced(pieces),
    ensures
        var_names(render(pieces)) == names(pieces),
{
    let s = render(pieces);
    assert(s.skip(0) =~= s);
    lemma_scan_idle(s, 0, pieces);
}

/// Text without a brace holds no placeholder.
pub proof fn lemma_plain_text_has_no_names(text: Seq<char>)
    requires
        brace_free(text),
    ensures
        var_names(text).len() == 0,
{
    lemma_scan_plain(text, 0, text.len() as int, None);
}

/// Text without a brace expands to itself, whatever the variables.
pub proof fn lemma_expand_plain_text(text: Seq<char>, vars: Map<Seq<char>, Seq<char>>)
    requires
        brace_free(text),
    ensures
        expand_spec(text, vars) == text,
{
    lemma_plain_text_has_no_names(text);
}

} // verus!
