//! Rendering of runtime values to display text: scalars by their natural
//! text form (strings re-quoted), lists and tuples as comma-joined,
//! bracket-delimited text, function values as an opaque function
//! reference tag, and heap addresses by recursively resolving the
//! indirection. The recursion over indirections carries an explicit depth
//! guard; it belongs to the render path, not to evaluation semantics, and
//! an exhausted guard or a dangling address renders as a question mark.

use vstd::prelude::*;
use crate::runtime::DataV;
use crate::runtime::Heap;
use crate::runtime::RuntimeData;
use crate::runtime::datas_view;
use crate::runtime::lemma_datas_view;

verus! {

/// The decimal digits of a number, most significant first.
pub open spec fn dec_digits(n: nat) -> Seq<char>
    decreases n,
{
    if n < 10 {
        seq![((n + 0x30) as u8) as char]
    } else {
        dec_digits(n / 10).push(((n % 10 + 0x30) as u8) as char)
    }
}

/// The decimal text of a machine word.
pub fn u64_text(n: u64) -> (r: String)
    ensures
        r@ == dec_digits(n as nat),
    decreases n,
{
    if n < 10 {
        let mut r = String::new();
        let d: u8 = (n as u8) + 0x30;
        r.push(d as char);
        proof {
            assert(r@ =~= dec_digits(n as nat));
        }
        r
    } else {
        let mut r = u64_text(n / 10);
        let d: u8 = ((n % 10) as u8) + 0x30;
        r.push(d as char);
        proof {
            assert(r@ =~= dec_digits(n as nat));
        }
        r
    }
}

/// The display text of a value: numbers by their fixed text, strings
/// re-quoted, symbols as they are, functions as a reference tag, lists
/// and tuples with their contents comma-joined, and an address by the
/// text of its pointee, down to the given depth.
pub open spec fn render_spec(d: DataV, heap: Seq<DataV>, depth: int) -> Seq<char>
    decreases depth, d,
{
    match d {
        DataV::Number(n) => n.text,
        DataV::String(s) => seq!['"'] + s + seq!['"'],
        DataV::Symbol(s) => s,
        DataV::Function(f) => "Function: "@ + dec_digits(f.0 as nat),
        DataV::Address(a) => if depth <= 0 || a >= heap.len() {
            "?"@
        } else {
            "Address( "@ + render_spec(heap[a as int], heap, depth - 1) + " )"@
        },
        DataV::List(items) => "List( "@ + render_items_spec(items, heap, depth) + " )"@,
        DataV::Tuple(items) => "Tuple( "@ + render_items_spec(items, heap, depth) + " )"@,
    }
}

/// The comma-joined display texts of a sequence of values.
pub open spec fn render_items_spec(items: Seq<DataV>, heap: Seq<DataV>, depth: int) -> Seq<char>
    decreases depth, items,
{
    if items.len() == 0 {
        Seq::empty()
    } else if items.len() == 1 {
        render_spec(items[0], heap, depth)
    } else {
        render_spec(items[0], heap, depth) + ", "@ + render_items_spec(
            items.subrange(1, items.len() as int),
            heap,
            depth,
        )
    }
}

/// Extending a rendered prefix by one more item appends a separator and
/// that item's text.
proof fn lemma_render_items_snoc(items: Seq<DataV>, i: int, heap: Seq<DataV>, depth: int)
    requires
        1 <= i < items.len(),
    ensures
        render_items_spec(items.subrange(0, i + 1), heap, depth) == render_items_spec(
            items.subrange(0, i),
            heap,
            depth,
        ) + ", "@ + render_spec(items[i], heap, depth),
    decreases i,
{
    let pre = items.subrange(0, i + 1);
    if i == 1 {
        assert(pre[0] == items[0]);
        assert(pre.subrange(1, pre.len() as int) =~= items.subrange(1, 2));
        assert(items.subrange(1, 2)[0] == items[1]);
        assert(items.subrange(0, 1)[0] == items[0]);
        assert(render_items_spec(items.subrange(1, 2), heap, depth) == render_spec(
            items[1],
            heap,
            depth,
        ));
        assert(render_items_spec(items.subrange(0, 1), heap, depth) == render_spec(
            items[0],
            heap,
            depth,
        ));
        assert(render_items_spec(pre, heap, depth) =~= render_items_spec(
            items.subrange(0, 1),
            heap,
            depth,
        ) + ", "@ + render_spec(items[1], heap, depth));
    } else {
        lemma_render_items_snoc(items.subrange(1, items.len() as int), i - 1, heap, depth);
        let tail = items.subrange(1, items.len() as int);
        assert(pre[0] == items[0]);
        assert(pre.subrange(1, pre.len() as int) =~= tail.subrange(0, i));
        assert(items.subrange(0, i).subrange(1, i) =~= tail.subrange(0, i - 1));
        assert(tail.subrange(0, i - 1 + 1) =~= tail.subrange(0, i));
        assert(tail[i - 1] == items[i]);
        assert(items.subrange(0, i)[0] == items[0]);
        assert(render_items_spec(pre, heap, depth) =~= render_items_spec(
            items.subrange(0, i),
            heap,
            depth,
        ) + ", "@ + render_spec(items[i], heap, depth));
    }
}

/// Renders a value to its display text against the heap, following
/// address indirections at most `depth` levels deep.
#[verifier::loop_isolation(false)]
pub fn print_data(data: &RuntimeData, heap: &Heap, depth: usize) -> (r: String)
    ensures
        r@ == render_spec(data@, heap@, depth as int),
    decreases depth, *data,
{
    match data {
        RuntimeData::Number(n) => n.text.clone(),
        RuntimeData::String(s) => {
            let mut r = String::new();
            r.push('"');
            r.push_str(s.as_str());
            r.push('"');
            proof {
                assert(r@ =~= seq!['"'] + s@ + seq!['"']);
            }
            r
        },
        RuntimeData::Symbol(s) => s.clone(),
        RuntimeData::Function(f) => {
            let mut r = "Function: ".to_owned();
            let digits = u64_text(f.0 as u64);
            r.push_str(digits.as_str());
            r
        },
        RuntimeData::Address(a) => {
            if depth == 0 {
                "?".to_owned()
            } else {
                match heap.get(*a) {
                    None => "?".to_owned(),
                    Some(pointee) => {
                        let inner = print_data(pointee, heap, depth - 1);
                        let mut r = "Address( ".to_owned();
                        r.push_str(inner.as_str());
                        r.push_str(" )");
                        r
                    },
                }
            }
        },
        RuntimeData::List(items) => {
            let inner = render_items(items, heap, depth);
            let mut r = "List( ".to_owned();
            r.push_str(inner.as_str());
            r.push_str(" )");
            proof {
                lemma_datas_view(items@);
            }
            r
        },
        RuntimeData::Tuple(items) => {
            let inner = render_items(items, heap, depth);
            let mut r = "Tuple( ".to_owned();
            r.push_str(inner.as_str());
            r.push_str(" )");
            proof {
                lemma_datas_view(items@);
            }
            r
        },
    }
}

/// Renders the comma-joined display texts of a vector of values.
#[verifier::loop_isolation(false)]
fn render_items(items: &Vec<RuntimeData>, heap: &Heap, depth: usize) -> (r: String)
    ensures
        r@ == render_items_spec(datas_view(items@), heap@, depth as int),
    decreases depth, items@,
{
    let ghost iv = datas_view(items@);
    proof {
        lemma_datas_view(items@);
    }
    let mut r = String::new();
    if items.len() == 0 {
        proof {
            assert(r@ =~= render_items_spec(iv, heap@, depth as int));
        }
        return r;
    }
    let first = print_data(&items[0], heap, depth);
    r.push_str(first.as_str());
    proof {
        assert(iv.subrange(0, 1)[0] == iv[0]);
        assert(r@ =~= render_items_spec(iv.subrange(0, 1), heap@, depth as int));
    }
    let mut i: usize = 1;
    while i < items.len()
        invariant
            1 <= i <= items@.len(),
            r@ == render_items_spec(iv.subrange(0, i as int), heap@, depth as int),
        decreases items@.len() - i,
    {
        proof {
            lemma_render_items_snoc(iv, i as int, heap@, depth as int);
        }
        let item = print_data(&items[i], heap, depth);
        r.push_str(", ");
        r.push_str(item.as_str());
        i = i + 1;
    }
    proof {
        assert(iv.subrange(0, iv.len() as int) =~= iv);
    }
    r
}

} // verus!
