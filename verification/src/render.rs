//! Renders the JSON response bodies, with the exact structural wrapping the
//! server has always emitted.

use vstd::prelude::*;
use vstd::string::StringExecFns;
use crate::json::{json_encode_str, json_string};

verus! {

/// The body of a key hit: a `value` member holding the record's value.
pub open spec fn value_body(v: Seq<char>) -> Seq<char> {
    "{\n  \"value\":"@ + json_string(v) + "\n}\n"@
}

/// The body of a resource hit: a `resource` member holding the record's
/// value.
pub open spec fn resource_body(v: Seq<char>) -> Seq<char> {
    "{\n  \"resource\":"@ + json_string(v) + "\n}\n"@
}

/// The array elements of a resource listing, each on its own indented line,
/// comma-separated.
pub open spec fn resources_items(vs: Seq<Seq<char>>) -> Seq<char>
    decreases vs.len(),
{
    if vs.len() == 0 {
        Seq::empty()
    } else {
        resources_items(vs.drop_last()) + (if vs.len() == 1 {
            "\n    "@
        } else {
            ",\n    "@
        }) + json_string(vs.last())
    }
}

/// The body of a resource listing: a `resources` member holding one array
/// element per resource value, valid JSON even when empty.
pub open spec fn resources_body(vs: Seq<Seq<char>>) -> Seq<char> {
    "{\n  \"resources\": ["@ + resources_items(vs) + "\n  ]\n}\n"@
}

pub fn render_value_body(v: &str) -> (r: String)
    ensures
        r@ == value_body(v@),
{
    let mut out = String::from_str("{\n  \"value\":");
    let j = json_encode_str(v);
    out.append(j.as_str());
    out.append("\n}\n");
    proof {
        assert(out@ =~= value_body(v@));
    }
    out
}

pub fn render_resource_body(v: &str) -> (r: String)
    ensures
        r@ == resource_body(v@),
{
    let mut out = String::from_str("{\n  \"resource\":");
    let j = json_encode_str(v);
    out.append(j.as_str());
    out.append("\n}\n");
    proof {
        assert(out@ =~= resource_body(v@));
    }
    out
}

pub fn render_resources_body(vs: &Vec<String>) -> (r: String)
    ensures
        r@ == resources_body(vs.deep_view()),
{
    let ghost dv = vs.deep_view();
    let mut out = String::from_str("{\n  \"resources\": [");
    proof {
        assert(dv.subrange(0, 0) =~= Seq::<Seq<char>>::empty());
        assert(out@ =~= "{\n  \"resources\": ["@ + resources_items(dv.subrange(0, 0)));
    }
    let mut i: usize = 0;
    while i < vs.len()
        invariant
            0 <= i <= vs@.len(),
            dv == vs.deep_view(),
            dv.len() == vs@.len(),
            out@ == "{\n  \"resources\": ["@ + resources_items(dv.subrange(0, i as int)),
        decreases vs@.len() - i,
    {
        if i == 0 {
            out.append("\n    ");
        } else {
            out.append(",\n    ");
        }
        let j = json_encode_str(vs[i].as_str());
        out.append(j.as_str());
        proof {
            assert(dv[i as int] == vs@[i as int]@);
            assert(dv.subrange(0, i as int + 1).drop_last() =~= dv.subrange(0, i as int));
            assert(dv.subrange(0, i as int + 1).last() == dv[i as int]);
            assert(out@ =~= "{\n  \"resources\": ["@ + resources_items(
                dv.subrange(0, i as int + 1),
            ));
        }
        i += 1;
    }
    out.append("\n  ]\n}\n");
    proof {
        assert(dv.subrange(0, vs@.len() as int) =~= dv);
        assert(out@ =~= resources_body(dv));
    }
    out
}

} // verus!
