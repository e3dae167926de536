//! The library's own candidate value: the structured parameter set the
//! driver proposes for evaluation, held as a JSON document. Numbers and
//! string contents are carried as the exact bytes that will appear in the
//! encoded text, so the whole encoding is plain concatenation, stated below
//! and proved of the executable encoder.

use vstd::prelude::*;

verus! {

/// One JSON document node. A number holds the bytes of its literal; a
/// string holds the bytes between its quotes, escapes already applied.
pub enum JsonVal {
    Null,
    Bool(bool),
    Num(Vec<u8>),
    Str(Vec<u8>),
    Arr(Vec<JsonVal>),
    Obj(Vec<(Vec<u8>, JsonVal)>),
}

/// The encoded text of a value: the compact form, no insignificant
/// whitespace, members and elements in the order held.
pub open spec fn ser(v: JsonVal) -> Seq<u8>
    decreases v,
{
    match v {
        JsonVal::Null => seq![0x6eu8, 0x75u8, 0x6cu8, 0x6cu8],  // null
        JsonVal::Bool(b) => if b {
            seq![0x74u8, 0x72u8, 0x75u8, 0x65u8]  // true
        } else {
            seq![0x66u8, 0x61u8, 0x6cu8, 0x73u8, 0x65u8]  // false
        },
        JsonVal::Num(t) => t@,
        JsonVal::Str(t) => seq![0x22u8] + t@ + seq![0x22u8],
        JsonVal::Arr(xs) => seq![0x5bu8] + ser_elems(xs@, 0) + seq![0x5du8],
        JsonVal::Obj(ms) => seq![0x7bu8] + ser_membs(ms@, 0) + seq![0x7du8],
    }
}

/// The encoded elements of an array from index `i` on, comma-separated.
pub open spec fn ser_elems(xs: Seq<JsonVal>, i: int) -> Seq<u8>
    decreases xs, xs.len() - i,
{
    if 0 <= i && i < xs.len() {
        if i + 1 < xs.len() {
            ser(xs[i]) + seq![0x2cu8] + ser_elems(xs, i + 1)
        } else {
            ser(xs[i])
        }
    } else {
        Seq::empty()
    }
}

/// The encoded members of an object from index `i` on, comma-separated,
/// each a quoted key, a colon, and the member's value.
pub open spec fn ser_membs(ms: Seq<(Vec<u8>, JsonVal)>, i: int) -> Seq<u8>
    decreases ms, ms.len() - i,
{
    if 0 <= i && i < ms.len() {
        let head = seq![0x22u8] + ms[i].0@ + seq![0x22u8, 0x3au8] + ser(ms[i].1);
        if i + 1 < ms.len() {
            head + seq![0x2cu8] + ser_membs(ms, i + 1)
        } else {
            head
        }
    } else {
        Seq::empty()
    }
}

fn push_all(out: &mut Vec<u8>, t: &Vec<u8>)
    ensures
        final(out)@ == old(out)@ + t@,
{
    let mut k: usize = 0;
    while k < t.len()
        invariant
            k <= t@.len(),
            out@ == old(out)@ + t@.subrange(0, k as int),
        decreases t@.len() - k,
    {
        out.push(t[k]);
        assert(t@.subrange(0, k + 1) =~= t@.subrange(0, k as int).push(t@[k as int]));
        assert(out@ =~= old(out)@ + t@.subrange(0, k + 1));
        k = k + 1;
    }
    assert(t@.subrange(0, t@.len() as int) =~= t@);
}

fn write_value(out: &mut Vec<u8>, v: &JsonVal)
    ensures
        final(out)@ == old(out)@ + ser(*v),
    decreases *v, 0int,
{
    match v {
        JsonVal::Null => {
            out.push(0x6e);
            out.push(0x75);
            out.push(0x6c);
            out.push(0x6c);
            assert(out@ =~= old(out)@ + ser(*v));
        },
        JsonVal::Bool(b) => {
            if *b {
                out.push(0x74);
                out.push(0x72);
                out.push(0x75);
                out.push(0x65);
            } else {
                out.push(0x66);
                out.push(0x61);
                out.push(0x6c);
                out.push(0x73);
                out.push(0x65);
            }
            assert(out@ =~= old(out)@ + ser(*v));
        },
        JsonVal::Num(t) => {
            push_all(out, t);
        },
        JsonVal::Str(t) => {
            out.push(0x22);
            push_all(out, t);
            out.push(0x22);
            assert(out@ =~= old(out)@ + ser(*v));
        },
        JsonVal::Arr(xs) => {
            out.push(0x5b);
            write_elems(out, xs, 0);
            out.push(0x5d);
            assert(out@ =~= old(out)@ + ser(*v));
        },
        JsonVal::Obj(ms) => {
            out.push(0x7b);
            write_membs(out, ms, 0);
            out.push(0x7d);
            assert(out@ =~= old(out)@ + ser(*v));
        },
    }
}

fn write_elems(out: &mut Vec<u8>, xs: &Vec<JsonVal>, i: usize)
    requires
        i <= xs@.len(),
    ensures
        final(out)@ == old(out)@ + ser_elems(xs@, i as int),
    decreases xs@, xs@.len() - i, 1int,
{
    if i < xs.len() {
        write_value(out, &xs[i]);
        if i + 1 < xs.len() {
            out.push(0x2c);
            write_elems(out, xs, i + 1);
            assert(out@ =~= old(out)@ + ser_elems(xs@, i as int));
        } else {
            assert(out@ =~= old(out)@ + ser_elems(xs@, i as int));
        }
    } else {
        assert(out@ =~= old(out)@ + ser_elems(xs@, i as int));
    }
}

fn write_membs(out: &mut Vec<u8>, ms: &Vec<(Vec<u8>, JsonVal)>, i: usize)
    requires
        i <= ms@.len(),
    ensures
        final(out)@ == old(out)@ + ser_membs(ms@, i as int),
    decreases ms@, ms@.len() - i, 1int,
{
    if i < ms.len() {
        out.push(0x22);
        push_all(out, &ms[i].0);
        out.push(0x22);
        out.push(0x3a);
        write_value(out, &ms[i].1);
        if i + 1 < ms.len() {
            out.push(0x2c);
            write_membs(out, ms, i + 1);
            assert(out@ =~= old(out)@ + ser_membs(ms@, i as int));
        } else {
            assert(out@ =~= old(out)@ + ser_membs(ms@, i as int));
        }
    } else {
        assert(out@ =~= old(out)@ + ser_membs(ms@, i as int));
    }
}

/// Encode one candidate value as the textual interchange form that is
/// appended as the process's final argument.
pub fn to_json_bytes(v: &JsonVal) -> (r: Vec<u8>)
    ensures
        r@ == ser(*v),
{
    let mut out: Vec<u8> = Vec::new();
    write_value(&mut out, v);
    out
}

} // verus!
