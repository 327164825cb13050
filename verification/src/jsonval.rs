//! JSON values and their serialization.
//!
//! `Jv` covers what the protocol reads and writes: the usual JSON shapes,
//! unsigned integers for every numeric parameter the catalog knows, and a
//! `Raw` variant that splices an already serialized value (an echoed request
//! id, or a collaborator's passthrough result) into the output verbatim.
use vstd::prelude::*;

use crate::hexs::{push_dec, push_dec_i64, spec_dec, spec_dec_int, digit, spec_digit};

verus! {

pub enum Jv {
    Null,
    Bool(bool),
    Uint(u64),
    Int(i64),
    Str(String),
    Arr(Vec<Jv>),
    Obj(Vec<(String, Jv)>),
    Raw(String),
}

/// Escape of one character inside a JSON string literal.
pub open spec fn spec_esc_char(c: char) -> Seq<char> {
    if c == '"' {
        seq!['\\', '"']
    } else if c == '\\' {
        seq!['\\', '\\']
    } else if (c as u32) == 8 {
        seq!['\\', 'b']
    } else if (c as u32) == 9 {
        seq!['\\', 't']
    } else if (c as u32) == 10 {
        seq!['\\', 'n']
    } else if (c as u32) == 12 {
        seq!['\\', 'f']
    } else if (c as u32) == 13 {
        seq!['\\', 'r']
    } else if (c as u32) < 32 {
        seq!['\\', 'u', '0', '0', spec_digit(((c as u32) / 16) as u8), spec_digit(
            ((c as u32) % 16) as u8,
        )]
    } else {
        seq![c]
    }
}

/// Escape of a whole string body.
pub open spec fn spec_esc(s: Seq<char>) -> Seq<char>
    decreases s.len(),
{
    if s.len() == 0 {
        Seq::empty()
    } else {
        spec_esc(s.drop_last()) + spec_esc_char(s.last())
    }
}

/// Serialized text of a value.
pub open spec fn jtext(v: Jv) -> Seq<char>
    decreases v,
{
    match v {
        Jv::Null => "null"@,
        Jv::Bool(b) => if b {
            "true"@
        } else {
            "false"@
        },
        Jv::Uint(u) => spec_dec(u as nat),
        Jv::Int(i) => spec_dec_int(i as int),
        Jv::Str(s) => seq!['"'] + spec_esc(s@) + seq!['"'],
        Jv::Arr(a) => seq!['['] + jtext_items(a, a.len() as int) + seq![']'],
        Jv::Obj(o) => seq!['{'] + jtext_entries(o, o.len() as int) + seq!['}'],
        Jv::Raw(s) => s@,
    }
}

/// Text of the first `i` elements of an array body, comma separated.
pub open spec fn jtext_items(a: Vec<Jv>, i: int) -> Seq<char>
    decreases a, i,
{
    if i <= 0 || i > a.len() {
        Seq::empty()
    } else {
        jtext_items(a, i - 1) + (if i > 1 {
            seq![',']
        } else {
            Seq::empty()
        }) + jtext(a[i - 1])
    }
}

/// Text of the first `i` entries of an object body, comma separated.
pub open spec fn jtext_entries(o: Vec<(String, Jv)>, i: int) -> Seq<char>
    decreases o, i,
{
    if i <= 0 || i > o.len() {
        Seq::empty()
    } else {
        jtext_entries(o, i - 1) + (if i > 1 {
            seq![',']
        } else {
            Seq::empty()
        }) + seq!['"'] + spec_esc(o[i - 1].0@) + seq!['"', ':'] + jtext(o[i - 1].1)
    }
}

/// A character that escaping leaves alone.
pub open spec fn esc_plain(c: char) -> bool {
    c != '"' && c != '\\' && (c as u32) >= 32
}

/// Escaping leaves a text of plain characters alone.
pub proof fn lemma_esc_plain(s: Seq<char>)
    requires
        forall|i: int| 0 <= i < s.len() ==> esc_plain(#[trigger] s[i]),
    ensures
        spec_esc(s) == s,
    decreases s.len(),
{
    if s.len() > 0 {
        lemma_esc_plain(s.drop_last());
        assert(spec_esc_char(s.last()) == seq![s.last()]);
        assert(spec_esc(s) =~= s);
    } else {
        assert(spec_esc(s) =~= s);
    }
}

/// Appends the escape of one character.
pub fn push_esc_char(c: char, out: &mut Vec<char>)
    ensures
        final(out)@ == old(out)@ + spec_esc_char(c),
{
    let u = c as u32;
    if c == '"' {
        out.push('\\');
        out.push('"');
    } else if c == '\\' {
        out.push('\\');
        out.push('\\');
    } else if u == 8 {
        out.push('\\');
        out.push('b');
    } else if u == 9 {
        out.push('\\');
        out.push('t');
    } else if u == 10 {
        out.push('\\');
        out.push('n');
    } else if u == 12 {
        out.push('\\');
        out.push('f');
    } else if u == 13 {
        out.push('\\');
        out.push('r');
    } else if u < 32 {
        out.push('\\');
        out.push('u');
        out.push('0');
        out.push('0');
        out.push(digit((u / 16) as u8));
        out.push(digit((u % 16) as u8));
    } else {
        out.push(c);
    }
}

/// Appends the escaped body of a string.
pub fn push_esc(s: &str, out: &mut Vec<char>)
    ensures
        final(out)@ == old(out)@ + spec_esc(s@),
{
    let n = s.unicode_len();
    let mut i: usize = 0;
    while i < n
        invariant
            i <= n,
            n == s@.len(),
            out@ == old(out)@ + spec_esc(s@.take(i as int)),
        decreases n - i,
    {
        let c = s.get_char(i);
        push_esc_char(c, out);
        proof {
            assert(s@.take(i + 1 as int).drop_last() =~= s@.take(i as int));
            assert(s@.take(i + 1 as int).last() == s@[i as int]);
        }
        i = i + 1;
    }
    proof {
        assert(s@.take(s@.len() as int) =~= s@);
    }
}

/// Appends the serialized text of a value.
#[verifier::loop_isolation(false)]
pub fn write_jv(v: &Jv, out: &mut Vec<char>)
    ensures
        final(out)@ == old(out)@ + jtext(*v),
    decreases *v,
{
    match v {
        Jv::Null => {
            proof {
                reveal_strlit("null");
            }
            out.push('n');
            out.push('u');
            out.push('l');
            out.push('l');
            proof {
                assert(final(out)@ =~= old(out)@ + "null"@);
            }
        },
        Jv::Bool(b) => {
            if *b {
                proof {
                    reveal_strlit("true");
                }
                out.push('t');
                out.push('r');
                out.push('u');
                out.push('e');
                proof {
                    assert(final(out)@ =~= old(out)@ + "true"@);
                }
            } else {
                proof {
                    reveal_strlit("false");
                }
                out.push('f');
                out.push('a');
                out.push('l');
                out.push('s');
                out.push('e');
                proof {
                    assert(final(out)@ =~= old(out)@ + "false"@);
                }
            }
        },
        Jv::Uint(u) => {
            push_dec(*u, out);
        },
        Jv::Int(i) => {
            push_dec_i64(*i, out);
        },
        Jv::Str(s) => {
            out.push('"');
            push_esc(s.as_str(), out);
            out.push('"');
            proof {
                assert(final(out)@ =~= old(out)@ + jtext(*v));
            }
        },
        Jv::Arr(a) => {
            out.push('[');
            let mut i: usize = 0;
            while i < a.len()
                invariant
                    i <= a.len(),
                    out@ == old(out)@ + seq!['['] + jtext_items(*a, i as int),
                decreases a.len() - i,
            {
                if i > 0 {
                    out.push(',');
                }
                write_jv(&a[i], out);
                i = i + 1;
            }
            out.push(']');
            proof {
                assert(final(out)@ =~= old(out)@ + jtext(*v));
            }
        },
        Jv::Obj(o) => {
            out.push('{');
            let mut i: usize = 0;
            while i < o.len()
                invariant
                    i <= o.len(),
                    out@ == old(out)@ + seq!['{'] + jtext_entries(*o, i as int),
                decreases o.len() - i,
            {
                if i > 0 {
                    out.push(',');
                }
                out.push('"');
                push_esc(o[i].0.as_str(), out);
                out.push('"');
                out.push(':');
                write_jv(&o[i].1, out);
                i = i + 1;
            }
            out.push('}');
            proof {
                assert(final(out)@ =~= old(out)@ + jtext(*v));
            }
        },
        Jv::Raw(s) => {
            let n = s.as_str().unicode_len();
            let mut i: usize = 0;
            while i < n
                invariant
                    i <= n,
                    n == s@.len(),
                    out@ == old(out)@ + s@.take(i as int),
                decreases n - i,
            {
                out.push(s.as_str().get_char(i));
                proof {
                    assert(s@.take(i + 1 as int) =~= s@.take(i as int) + seq![s@[i as int]]);
                }
                i = i + 1;
            }
            proof {
                assert(s@.take(s@.len() as int) =~= s@);
            }
        },
    }
}

/// Serialized text of a value, as a fresh character vector.
pub fn jv_chars(v: &Jv) -> (r: Vec<char>)
    ensures
        r@ == jtext(*v),
{
    let mut out: Vec<char> = Vec::new();
    write_jv(v, &mut out);
    out
}

} // verus!
