//! The names under which actions are registered and looked up.
//!
//! An action lives in a group and has a name; its full name is
//! `group.name`.  An action whose target value is one of a fixed set of
//! variants is addressed, for keyboard accelerators and menus, by its
//! detailed name `group.name(value)`, with the value written in the text
//! format of variants.
use vstd::prelude::*;
use vstd::string::StringExecFns;

verus! {

/// The target value of an action variant, as it appears in a detailed name.
pub enum VariantDetail {
    /// A number or boolean, written as it is.
    Literal(String),
    /// A string, written between single quotes.
    Text(String),
    /// An array of values, written between brackets and separated by commas.
    Array(Vec<VariantDetail>),
    /// A tuple of values, written between parentheses and separated by commas.
    Tuple(Vec<VariantDetail>),
}

/// The text of a value in a detailed action name.
pub open spec fn detail_text(d: VariantDetail) -> Seq<char>
    decreases d,
{
    match d {
        VariantDetail::Literal(s) => s@,
        VariantDetail::Text(s) => seq!['\''] + s@ + seq!['\''],
        VariantDetail::Array(items) => seq!['['] + items_text(items@) + seq![']'],
        VariantDetail::Tuple(items) => seq!['('] + items_text(items@) + seq![')'],
    }
}

/// The texts of values, separated by commas.
pub open spec fn items_text(items: Seq<VariantDetail>) -> Seq<char>
    decreases items,
{
    if items.len() == 0 {
        Seq::empty()
    } else if items.len() == 1 {
        detail_text(items[0])
    } else {
        items_text(items.subrange(0, items.len() - 1)) + seq![','] + detail_text(
            items[items.len() - 1],
        )
    }
}

/// Appends the text of the values `items`, separated by commas, to `out`.
fn append_items(out: &mut String, items: &Vec<VariantDetail>)
    ensures
        final(out)@ == old(out)@ + items_text(items@),
    decreases items@,
{
    let ghost start = out@;
    let mut i: usize = 0;
    while i < items.len()
        invariant
            i <= items@.len(),
            out@ == start + items_text(items@.subrange(0, i as int)),
        decreases items@.len() - i,
    {
        let ghost before = out@;
        let ghost prefix = items@.subrange(0, i as int + 1);
        assert(prefix.subrange(0, i as int) =~= items@.subrange(0, i as int));
        assert(prefix[i as int] == items@[i as int]);
        if i > 0 {
            proof {
                reveal_strlit(",");
            }
            out.append(",");
        }
        append_detail(out, &items[i]);
        assert(out@ =~= start + items_text(prefix));
        i = i + 1;
    }
    assert(items@.subrange(0, i as int) =~= items@);
}

/// Appends the text of the value `detail` to `out`.
fn append_detail(out: &mut String, detail: &VariantDetail)
    ensures
        final(out)@ == old(out)@ + detail_text(*detail),
    decreases *detail,
{
    match detail {
        VariantDetail::Literal(s) => {
            out.append(s.as_str());
        },
        VariantDetail::Text(s) => {
            proof {
                reveal_strlit("'");
            }
            out.append("'");
            out.append(s.as_str());
            out.append("'");
        },
        VariantDetail::Array(items) => {
            proof {
                reveal_strlit("[");
                reveal_strlit("]");
            }
            out.append("[");
            append_items(out, items);
            out.append("]");
        },
        VariantDetail::Tuple(items) => {
            proof {
                reveal_strlit("(");
                reveal_strlit(")");
            }
            out.append("(");
            append_items(out, items);
            out.append(")");
        },
    }
}

/// The full name `group.name` of an action.
pub fn full_action_name(group: &str, name: &str) -> (r: String)
    ensures
        r@ == group@ + seq!['.'] + name@,
{
    proof {
        reveal_strlit(".");
    }
    let mut r = String::from_str(group);
    r.append(".");
    r.append(name);
    r
}

/// The detailed name of an action: its full name, followed by the target
/// value between parentheses when the action has one.
pub fn detailed_action_name(group: &str, name: &str, detail: Option<&VariantDetail>) -> (r: String)
    ensures
        detail is None ==> r@ == group@ + seq!['.'] + name@,
        detail matches Some(d) ==> r@ == group@ + seq!['.'] + name@ + seq!['('] + detail_text(*d)
            + seq![')'],
{
    let mut r = full_action_name(group, name);
    match detail {
        Some(d) => {
            proof {
                reveal_strlit("(");
                reveal_strlit(")");
            }
            r.append("(");
            append_detail(&mut r, d);
            r.append(")");
        },
        None => {},
    }
    r
}

} // verus!
