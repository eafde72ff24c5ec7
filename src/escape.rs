use vstd::prelude::*;
use crate::text::{chars_of, string_of};

verus! {

/// Longest name that the QDOS name field holds.
pub const NAME_MAX: usize = 36;

/// A character outside the emulator's filename alphabet.
pub open spec fn needs_escape(c: char) -> bool {
    (c as u32) < 34 || c == ':' || (c as u32) > 127
}

/// The first `NAME_MAX` characters of `s`.
pub open spec fn truncated(s: Seq<char>) -> Seq<char> {
    if s.len() > NAME_MAX {
        s.take(NAME_MAX as int)
    } else {
        s
    }
}

/// `s` with every `.` replaced by `_`.
pub open spec fn undotted(s: Seq<char>) -> Seq<char> {
    s.map_values(|c: char| if c == '.' { '_' } else { c })
}

pub open spec fn hex_digits() -> Seq<char> {
    seq!['0', '1', '2', '3', '4', '5', '6', '7', '8', '9', 'A', 'B', 'C', 'D', 'E', 'F']
}

/// Upper-case hexadecimal text of `n`, without leading zeros.
pub open spec fn hex_text(n: nat) -> Seq<char>
    decreases n,
{
    if n < 16 {
        seq![hex_digits()[n as int]]
    } else {
        hex_text(n / 16) + seq![hex_digits()[(n % 16) as int]]
    }
}

/// The text that stands for the character of `d` at `i` in an escaped name: an
/// escaped character is its code in hexadecimal, after a space unless it comes
/// first; a run of plain characters opens with `!`.
pub open spec fn token(d: Seq<char>, i: int) -> Seq<char> {
    if needs_escape(d[i]) {
        (if i > 0 {
            seq![' ']
        } else {
            Seq::empty()
        }) + hex_text(d[i] as u32 as nat)
    } else {
        (if i == 0 || needs_escape(d[i - 1]) {
            seq!['!']
        } else {
            Seq::empty()
        }) + seq![d[i]]
    }
}

/// The tokens of the first `n` characters of `d`.
pub open spec fn tokens(d: Seq<char>, n: int) -> Seq<char>
    decreases n,
{
    if n <= 0 {
        Seq::empty()
    } else {
        tokens(d, n - 1) + token(d, n - 1)
    }
}

pub open spec fn noname_text() -> Seq<char> {
    seq!['-', 'n', 'o', 'n', 'a', 'm', 'e', '-']
}

pub open spec fn noascii_text() -> Seq<char> {
    seq!['-', 'n', 'o', 'A', 'S', 'C', 'I', 'I', '-']
}

pub open spec fn has_escapable(d: Seq<char>) -> bool {
    exists|i: int| 0 <= i < d.len() && needs_escape(#[trigger] d[i])
}

/// The escaped form of the name `s`.
pub open spec fn escaped(s: Seq<char>) -> Seq<char> {
    let t = truncated(s);
    if t.len() == 0 {
        noname_text()
    } else {
        let d = undotted(t);
        if has_escapable(d) {
            noascii_text() + tokens(d, d.len() as int)
        } else {
            d
        }
    }
}

fn is_escapable(c: char) -> (r: bool)
    ensures
        r == needs_escape(c),
{
    (c as u32) < 34 || c == ':' || (c as u32) > 127
}

fn hex_digit(d: u32) -> (c: char)
    requires
        d < 16,
    ensures
        c == hex_digits()[d as int],
{
    let digits: [char; 16] = [
        '0', '1', '2', '3', '4', '5', '6', '7', '8', '9', 'A', 'B', 'C', 'D', 'E', 'F',
    ];
    assert(digits@ =~= hex_digits());
    digits[d as usize]
}

fn push_hex(out: &mut Vec<char>, n: u32)
    ensures
        final(out)@ == old(out)@ + hex_text(n as nat),
    decreases n,
{
    if n >= 16 {
        push_hex(out, n / 16);
    }
    out.push(hex_digit(n % 16));
    assert(final(out)@ =~= old(out)@ + hex_text(n as nat));
}

fn push_all(out: &mut Vec<char>, s: Vec<char>)
    ensures
        final(out)@ == old(out)@ + s@,
{
    let mut i: usize = 0;
    while i < s.len()
        invariant
            i <= s@.len(),
            out@ == old(out)@ + s@.subrange(0, i as int),
        decreases s@.len() - i,
    {
        out.push(s[i]);
        i = i + 1;
        assert(out@ =~= old(out)@ + s@.subrange(0, i as int));
    }
    assert(s@.subrange(0, i as int) =~= s@);
}

/// The escaped form of the name held in `name`.
pub fn escape_chars(name: &Vec<char>) -> (r: Vec<char>)
    ensures
        r@ == escaped(name@),
{
    let l: usize = if name.len() > NAME_MAX {
        NAME_MAX
    } else {
        name.len()
    };
    if l == 0 {
        let r = vec!['-', 'n', 'o', 'n', 'a', 'm', 'e', '-'];
        assert(r@ =~= noname_text());
        return r;
    }
    let ghost t = truncated(name@);
    let mut d: Vec<char> = Vec::new();
    let mut any = false;
    let mut i: usize = 0;
    while i < l
        invariant
            l == t.len(),
            t == truncated(name@),
            i <= l,
            d@ == undotted(t).subrange(0, i as int),
            any == has_escapable(d@),
        decreases l - i,
    {
        let c = name[i];
        let c2 = if c == '.' {
            '_'
        } else {
            c
        };
        let ghost prev = d@;
        d.push(c2);
        let e = is_escapable(c2);
        if e {
            any = true;
        }
        i = i + 1;
        assert(d@ =~= undotted(t).subrange(0, i as int));
        assert(d@ == prev.push(c2));
        if e {
            assert(needs_escape(d@[i - 1]));
        } else if any {
            proof {
                let j = choose|j: int| 0 <= j < prev.len() && needs_escape(#[trigger] prev[j]);
                assert(d@[j] == prev[j]);
            }
        } else {
            assert forall|j: int| 0 <= j < d@.len() implies !needs_escape(#[trigger] d@[j]) by {
                if j < i - 1 {
                    assert(d@[j] == prev[j]);
                }
            }
        }
    }
    assert(d@ =~= undotted(t));
    if !any {
        return d;
    }
    let mut out = vec!['-', 'n', 'o', 'A', 'S', 'C', 'I', 'I', '-'];
    assert(out@ =~= noascii_text());
    let mut k: usize = 0;
    while k < l
        invariant
            l == d@.len(),
            k <= l,
            out@ == noascii_text() + tokens(d@, k as int),
        decreases l - k,
    {
        let c = d[k];
        if is_escapable(c) {
            if k > 0 {
                out.push(' ');
            }
            push_hex(&mut out, c as u32);
        } else {
            if k == 0 || is_escapable(d[k - 1]) {
                out.push('!');
            }
            out.push(c);
        }
        assert(out@ =~= noascii_text() + tokens(d@, k + 1));
        k = k + 1;
    }
    out
}

/// Rewrites `name` into the filename alphabet of QDOS emulators: at most
/// `NAME_MAX` characters kept, `-noname-` for an empty name, dots turned into
/// underscores, and where a character remains outside the alphabet, the whole
/// name re-encoded after `-noASCII-`.
pub fn escape_filename(name: &mut String)
    ensures
        final(name)@ == escaped(old(name)@),
{
    let cs = chars_of(name.as_str());
    let e = escape_chars(&cs);
    *name = string_of(&e);
}

/// Names longer than `NAME_MAX` are cut to their first `NAME_MAX` characters before
/// anything else: their escaped form is that of the cut name.
pub proof fn lemma_escape_truncates_first(s: Seq<char>)
    requires
        s.len() > NAME_MAX,
    ensures
        escaped(s) == escaped(s.take(NAME_MAX as int)),
{
    assert(truncated(s.take(NAME_MAX as int)) =~= truncated(s));
}

} // verus!
