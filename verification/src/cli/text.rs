//! The texts the command line prints: a word in decimal, the entry a
//! diagnostic speaks of, and the arguments an entry expects.

use vstd::prelude::*;
use crate::decoder::types::{Word, WordType, word_bits};
use crate::executor::entry::Entry;

verus! {

/// The decimal digit character of `d`.
pub open spec fn digit_char(d: nat) -> char {
    if d == 0 {
        '0'
    } else if d == 1 {
        '1'
    } else if d == 2 {
        '2'
    } else if d == 3 {
        '3'
    } else if d == 4 {
        '4'
    } else if d == 5 {
        '5'
    } else if d == 6 {
        '6'
    } else if d == 7 {
        '7'
    } else if d == 8 {
        '8'
    } else {
        '9'
    }
}

/// The decimal numeral of `v`, most significant digit first.
pub open spec fn decimal(v: nat) -> Seq<char>
    decreases v,
{
    if v < 10 {
        seq![digit_char(v)]
    } else {
        decimal(v / 10).push(digit_char(v % 10))
    }
}

/// The characters of `s`, collected with `str::chars`.
#[verifier::external_body]
fn chars_of(s: &str) -> (r: Vec<char>)
    ensures
        r@ == s@,
{
    s.chars().collect()
}

/// The string of `chars`, collected from `chars` with `FromIterator`.
#[verifier::external_body]
pub(crate) fn string_of(chars: Vec<char>) -> (r: String)
    ensures
        r@ == chars@,
{
    chars.into_iter().collect()
}

/// The decimal numeral of `v`.
pub(crate) fn decimal_chars(v: u64) -> (r: Vec<char>)
    ensures
        r@ == decimal(v as nat),
    decreases v,
{
    let d = v % 10;
    let c = if d == 0 {
        '0'
    } else if d == 1 {
        '1'
    } else if d == 2 {
        '2'
    } else if d == 3 {
        '3'
    } else if d == 4 {
        '4'
    } else if d == 5 {
        '5'
    } else if d == 6 {
        '6'
    } else if d == 7 {
        '7'
    } else if d == 8 {
        '8'
    } else {
        '9'
    };
    if v < 10 {
        vec![c]
    } else {
        let mut out = decimal_chars(v / 10);
        out.push(c);
        out
    }
}

/// A word as the command line prints it: its bits in unsigned decimal.
pub fn format_word(word: Word) -> (r: String)
    ensures
        r@ == decimal(word_bits(word) as nat),
{
    let v: u64 = match word {
        Word::I32(x) => x as u64,
        Word::I64(x) => x,
    };
    string_of(decimal_chars(v))
}

/// How a diagnostic names `entry`: the requested export in backquotes, else
/// the module's default entry.
pub open spec fn subject_text(entry: Entry) -> Seq<char> {
    match entry {
        Entry::Export(name) => seq!['`'] + name@ + seq!['`'],
        _ => "the module entry"@,
    }
}

/// Names the entry in a diagnostic: the export when one was requested, else a
/// generic reference to the module's default entry.
pub fn entry_subject(entry: &Entry) -> (r: String)
    ensures
        r@ == subject_text(*entry),
{
    match entry {
        Entry::Export(name) => {
            let mut out: Vec<char> = Vec::new();
            out.push('`');
            let inner = chars_of(name.as_str());
            let mut i: usize = 0;
            while i < inner.len()
                invariant
                    i <= inner@.len(),
                    out@ == seq!['`'] + inner@.subrange(0, i as int),
                decreases inner.len() - i,
            {
                out.push(inner[i]);
                i = i + 1;
                assert(out@ =~= seq!['`'] + inner@.subrange(0, i as int));
            }
            out.push('`');
            assert(inner@.subrange(0, i as int) =~= inner@);
            assert(out@ =~= seq!['`'] + name@ + seq!['`']);
            string_of(out)
        },
        _ => {
            let text = "the module entry";
            proof {
                reveal_strlit("the module entry");
            }
            let out = chars_of(text);
            string_of(out)
        },
    }
}

/// The name of a word type.
pub open spec fn word_type_text(t: WordType) -> Seq<char> {
    match t {
        WordType::I32 => "i32"@,
        WordType::I64 => "i64"@,
    }
}

/// The names of `params`, separated by `, `.
pub open spec fn type_list(params: Seq<WordType>) -> Seq<char>
    decreases params.len(),
{
    if params.len() == 0 {
        Seq::empty()
    } else if params.len() == 1 {
        word_type_text(params[0])
    } else {
        type_list(params.drop_last()) + ", "@ + word_type_text(params.last())
    }
}

/// The phrase for the arguments an entry with parameters `params` expects:
/// `no arguments`, `1 argument (i32)`, or `2 arguments (i32, i64)`.
pub open spec fn expected_text(params: Seq<WordType>) -> Seq<char> {
    if params.len() == 0 {
        "no arguments"@
    } else {
        decimal(params.len()) + (if params.len() == 1 {
            " argument ("@
        } else {
            " arguments ("@
        }) + type_list(params) + ")"@
    }
}

/// `out` followed by the characters of `s`.
pub(crate) fn append(out: &mut Vec<char>, s: &str)
    ensures
        final(out)@ == old(out)@ + s@,
{
    let extra = chars_of(s);
    let mut i: usize = 0;
    while i < extra.len()
        invariant
            i <= extra@.len(),
            out@ == old(out)@ + extra@.subrange(0, i as int),
        decreases extra.len() - i,
    {
        out.push(extra[i]);
        i = i + 1;
        assert(out@ =~= old(out)@ + extra@.subrange(0, i as int));
    }
    assert(extra@.subrange(0, i as int) =~= extra@);
}

/// `out` followed by the decimal numeral of `v`.
pub(crate) fn append_decimal(out: &mut Vec<char>, v: u64)
    ensures
        final(out)@ == old(out)@ + decimal(v as nat),
{
    let mut digits = decimal_chars(v);
    out.append(&mut digits);
}

/// `out` followed by the name of `t`.
fn append_type(out: &mut Vec<char>, t: WordType)
    ensures
        final(out)@ == old(out)@ + word_type_text(t),
{
    match t {
        WordType::I32 => {
            proof {
                reveal_strlit("i32");
            }
            append(out, "i32");
        },
        WordType::I64 => {
            proof {
                reveal_strlit("i64");
            }
            append(out, "i64");
        },
    }
}

/// A phrase for the arguments an entry expects: `no arguments`,
/// `1 argument (i32)`, or `2 arguments (i32, i64)`.
pub fn expected_arguments(parameters: &[WordType]) -> (r: String)
    ensures
        r@ == expected_text(parameters@),
{
    let mut out: Vec<char> = Vec::new();
    if parameters.len() == 0 {
        append(&mut out, "no arguments");
        return string_of(out);
    }
    out = decimal_chars(parameters.len() as u64);
    if parameters.len() == 1 {
        append(&mut out, " argument (");
    } else {
        append(&mut out, " arguments (");
    }
    let ghost head = out@;
    let mut i: usize = 0;
    while i < parameters.len()
        invariant
            i <= parameters@.len(),
            parameters@.len() > 0,
            out@ == head + type_list(parameters@.subrange(0, i as int)),
        decreases parameters.len() - i,
    {
        if i > 0 {
            append(&mut out, ", ");
        }
        append_type(&mut out, parameters[i]);
        let ghost p = parameters@.subrange(0, i + 1 as int);
        assert(p.drop_last() =~= parameters@.subrange(0, i as int));
        i = i + 1;
    }
    assert(parameters@.subrange(0, i as int) =~= parameters@);
    append(&mut out, ")");
    string_of(out)
}

} // verus!
