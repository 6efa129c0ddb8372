//! How a value is written.
use crate::analisador_semantico::numeros::{Fact, Facts, Known, Request};
use crate::analisador_semantico::semantica::{Cause, Stop};
use crate::analisador_semantico::value::{
    entries_view, list_view, view_of_list, view_of_object, Val, Value,
};
use vstd::prelude::*;
use vstd::string::StringExecFns;

verus! {

/// The text of a value. A number is written as the table says; a boolean as
/// `true` or `false`; a list as `[a, b, ...]`; an object as
/// `{k: a, l: b, ...}`, its entries in their order. A text is written as it
/// is, but between quotes where `quoted` is set, as it is inside a list or an
/// object.
pub open spec fn show(v: Val, quoted: bool, k: Facts) -> Result<Seq<char>, Cause>
    decreases v, 0nat,
{
    match v {
        Val::Number(n) => if k.formatted.contains_key(n) {
            Ok(k.formatted[n])
        } else {
            Err(Cause::Need(Fact::Format(n)))
        },
        Val::Text(t) => Ok(
            if quoted {
                seq!['"'] + t + seq!['"']
            } else {
                t
            },
        ),
        Val::Boolean(b) => Ok(
            if b {
                "true"@
            } else {
                "false"@
            },
        ),
        Val::List(items) => show_items(items, 0, seq!['['], k),
        Val::Object(entries) => show_entries(entries, 0, seq!['{'], k),
    }
}

/// What comes between two items.
pub open spec fn separator(i: int) -> Seq<char> {
    if i > 0 {
        seq![',', ' ']
    } else {
        Seq::empty()
    }
}

/// `out`, then the items from `i` on, then the closing bracket.
pub open spec fn show_items(items: Seq<Val>, i: int, out: Seq<char>, k: Facts) -> Result<
    Seq<char>,
    Cause,
>
    decreases items, items.len() - i,
{
    if i < 0 || i >= items.len() {
        Ok(out.push(']'))
    } else {
        match show(items[i], true, k) {
            Ok(t) => show_items(items, i + 1, out + separator(i) + t, k),
            Err(c) => Err(c),
        }
    }
}

/// `out`, then the entries from `i` on, then the closing brace.
pub open spec fn show_entries(
    entries: Seq<(Seq<char>, Val)>,
    i: int,
    out: Seq<char>,
    k: Facts,
) -> Result<Seq<char>, Cause>
    decreases entries, entries.len() - i,
{
    if i < 0 || i >= entries.len() {
        Ok(out.push('}'))
    } else {
        match show(entries[i].1, true, k) {
            Ok(t) => show_entries(
                entries,
                i + 1,
                out + separator(i) + entries[i].0 + seq![':', ' '] + t,
                k,
            ),
            Err(c) => Err(c),
        }
    }
}

/// Whether the text that was returned, or the cause that stopped the
/// writing, is what `shown` says.
pub open spec fn written(r: Result<String, Stop>, shown: Result<Seq<char>, Cause>) -> bool {
    match r {
        Ok(t) => shown == Ok::<Seq<char>, Cause>(t@),
        Err(c) => shown == Err::<Seq<char>, Cause>(c@),
    }
}

/// The text of a value.
#[verifier::loop_isolation(false)]
pub fn format_value(v: &Value, quoted: bool, known: &Known) -> (r: Result<String, Stop>)
    ensures
        written(r, show(v@, quoted, known@)),
    decreases v,
{
    match v {
        Value::Number(n) => match known.formatted(*n) {
            Some(t) => Ok(t),
            None => Err(Stop::Need(Request::Format(*n))),
        },
        Value::String(t) => {
            if quoted {
                let mut out = String::new();
                out.push('"');
                out.append(t.as_str());
                out.push('"');
                assert(out@ =~= seq!['"'] + t@ + seq!['"']);
                Ok(out)
            } else {
                Ok(t.clone())
            }
        },
        Value::Boolean(b) => Ok(
            if *b {
                String::from_str("true")
            } else {
                String::from_str("false")
            },
        ),
        Value::List(items) => {
            proof {
                view_of_list(*items);
            }
            let mut out = String::new();
            out.push('[');
            assert(out@ =~= seq!['[']);
            let mut i: usize = 0;
            while i < items.len()
                invariant
                    i <= items.len(),
                    show(v@, quoted, known@) == show_items(
                        list_view(items@),
                        i as int,
                        out@,
                        known@,
                    ),
                decreases items.len() - i,
            {
                let t = match format_value(&items[i], true, known) {
                    Ok(t) => t,
                    Err(c) => {
                        return Err(c);
                    },
                };
                let ghost before = out@;
                if i > 0 {
                    out.push(',');
                    out.push(' ');
                }
                out.append(t.as_str());
                assert(out@ =~= before + separator(i as int) + t@);
                i += 1;
            }
            out.push(']');
            Ok(out)
        },
        Value::Object(entries) => {
            proof {
                view_of_object(*entries);
            }
            let mut out = String::new();
            out.push('{');
            assert(out@ =~= seq!['{']);
            let mut i: usize = 0;
            while i < entries.len()
                invariant
                    i <= entries.len(),
                    show(v@, quoted, known@) == show_entries(
                        entries_view(entries@),
                        i as int,
                        out@,
                        known@,
                    ),
                decreases entries.len() - i,
            {
                let t = match format_value(&entries[i].1, true, known) {
                    Ok(t) => t,
                    Err(c) => {
                        return Err(c);
                    },
                };
                let ghost before = out@;
                if i > 0 {
                    out.push(',');
                    out.push(' ');
                }
                out.append(entries[i].0.as_str());
                out.push(':');
                out.push(' ');
                out.append(t.as_str());
                assert(out@ =~= before + separator(i as int) + entries[i as int].0@ + seq![':', ' '] + t@);
                i += 1;
            }
            out.push('}');
            Ok(out)
        },
    }
}

} // verus!
