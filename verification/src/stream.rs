use vstd::prelude::*;

use crate::json::{members_view, obj_insert_all, JsonValue, JsonView};
use crate::message::{calls_view, FunctionView, ToolCall, ToolCallFunction, ToolCallView, copy_opt_string};

verus! {

/// Whether a streamed piece `inc` continues the call `tc`: by index when both
/// carry one, otherwise by a non-empty id.
pub open spec fn pieces_match(tc: ToolCallView, inc: ToolCallView) -> bool {
    match (tc.index, inc.index) {
        (Some(a), Some(b)) => a == b,
        _ => tc.id.len() > 0 && tc.id == inc.id,
    }
}

/// The call `tc` after the piece `inc` is merged into it.
pub open spec fn merge_piece(tc: ToolCallView, inc: ToolCallView) -> ToolCallView {
    ToolCallView {
        id: if inc.id.len() > 0 { inc.id } else { tc.id },
        call_type: if inc.call_type is Some { inc.call_type } else { tc.call_type },
        index: if inc.index is Some { inc.index } else { tc.index },
        function: match inc.function {
            Some(f) => match tc.function {
                Some(ef) => Some(FunctionView {
                    name: if f.name.len() > 0 { f.name } else { ef.name },
                    arguments: ef.arguments + f.arguments,
                }),
                None => Some(f),
            },
            None => tc.function,
        },
        name: if inc.name is Some { inc.name } else { tc.name },
        arguments: merge_arguments(tc.arguments, inc.arguments),
    }
}

/// The flat arguments after a piece: taken from the piece when the call has
/// none; when both are objects, each of the piece's members set into the
/// call's; otherwise the call's kept.
pub open spec fn merge_arguments(existing: Option<JsonView>, piece: Option<JsonView>) -> Option<JsonView> {
    match piece {
        None => existing,
        Some(p) => match existing {
            None => Some(p),
            Some(e) => match (e, p) {
                (JsonView::Object(a), JsonView::Object(b)) => Some(JsonView::Object(obj_insert_all(a, b))),
                _ => Some(e),
            },
        },
    }
}

fn merge_arguments_value(existing: &Option<JsonValue>, piece: &Option<JsonValue>) -> (r: Option<JsonValue>)
    ensures
        crate::message::opt_json(r) == merge_arguments(crate::message::opt_json(*existing), crate::message::opt_json(*piece)),
{
    match piece {
        None => crate::message::copy_opt_json(existing),
        Some(p) => match existing {
            None => Some(p.clone()),
            Some(e) => match (e, p) {
                (JsonValue::Object(a), JsonValue::Object(b)) => {
                    let mut merged = crate::json::copy_members(a);
                    crate::context::merge_objects(&mut merged, b);
                    Some(JsonValue::Object(merged))
                },
                _ => Some(e.clone()),
            },
        },
    }
}

/// The position of the first call in `acc` that `inc` continues.
pub open spec fn first_match(acc: Seq<ToolCallView>, inc: ToolCallView) -> Option<int>
    decreases acc.len(),
{
    if acc.len() == 0 {
        None
    } else {
        match first_match(acc.drop_last(), inc) {
            Some(i) => Some(i),
            None => if pieces_match(acc.last(), inc) {
                Some(acc.len() - 1)
            } else {
                None
            },
        }
    }
}

/// One piece merged into the accumulated calls: into the first call it
/// continues, else appended as a new call.
pub open spec fn merge_step(acc: Seq<ToolCallView>, inc: ToolCallView) -> Seq<ToolCallView> {
    match first_match(acc, inc) {
        Some(i) => acc.update(i, merge_piece(acc[i], inc)),
        None => acc.push(inc),
    }
}

/// All pieces merged, in order.
pub open spec fn merge_all(acc: Seq<ToolCallView>, incs: Seq<ToolCallView>) -> Seq<ToolCallView>
    decreases incs.len(),
{
    if incs.len() == 0 {
        acc
    } else {
        merge_step(merge_all(acc, incs.drop_last()), incs.last())
    }
}

proof fn lemma_first_match(acc: Seq<ToolCallView>, inc: ToolCallView, i: int)
    requires
        0 <= i <= acc.len(),
        forall|j: int| 0 <= j < i ==> !pieces_match(#[trigger] acc[j], inc),
        i < acc.len() ==> pieces_match(acc[i], inc),
    ensures
        first_match(acc, inc) == if i < acc.len() { Some(i) } else { None::<int> },
    decreases acc.len(),
{
    if acc.len() > 0 {
        if i < acc.len() - 1 {
            lemma_first_match(acc.drop_last(), inc, i);
        } else {
            lemma_first_match(acc.drop_last(), inc, acc.len() - 1);
        }
    }
}

fn merge_into(tc: &ToolCall, inc: &ToolCall) -> (r: ToolCall)
    ensures
        r@ == merge_piece(tc@, inc@),
{
    let id = if !inc.id.as_str().is_empty() { inc.id.clone() } else { tc.id.clone() };
    let call_type = if inc.call_type.is_some() {
        copy_opt_string(&inc.call_type)
    } else {
        copy_opt_string(&tc.call_type)
    };
    let index = if inc.index.is_some() { inc.index } else { tc.index };
    let function = match &inc.function {
        Some(f) => match &tc.function {
            Some(ef) => {
                let name = if !f.name.as_str().is_empty() { f.name.clone() } else { ef.name.clone() };
                let mut arguments = ef.arguments.clone();
                arguments.append(f.arguments.as_str());
                Some(ToolCallFunction { name, arguments })
            },
            None => Some(f.clone()),
        },
        None => match &tc.function {
            Some(ef) => Some(ef.clone()),
            None => None,
        },
    };
    ToolCall {
        id,
        call_type,
        index,
        function,
        name: if inc.name.is_some() { copy_opt_string(&inc.name) } else { copy_opt_string(&tc.name) },
        arguments: merge_arguments_value(&tc.arguments, &inc.arguments),
    }
}

/// Merges streamed tool-call pieces into the calls accumulated so far.
pub fn merge_tool_calls(accumulated: &mut Vec<ToolCall>, incremental: Vec<ToolCall>)
    ensures
        calls_view(final(accumulated)@) == merge_all(calls_view(old(accumulated)@), calls_view(incremental@)),
{
    let ghost acc0 = calls_view(accumulated@);
    let ghost incs = calls_view(incremental@);
    let mut k: usize = 0;
    while k < incremental.len()
        invariant
            k <= incremental.len(),
            incs == calls_view(incremental@),
            calls_view(accumulated@) == merge_all(acc0, incs.subrange(0, k as int)),
        decreases incremental.len() - k,
    {
        let inc = &incremental[k];
        let mut i: usize = 0;
        let mut found = false;
        while i < accumulated.len()
            invariant_except_break
                i <= accumulated.len(),
                !found,
                forall|j: int| 0 <= j < i ==> !pieces_match(#[trigger] calls_view(accumulated@)[j], inc@),
            ensures
                i <= accumulated.len(),
                forall|j: int| 0 <= j < i ==> !pieces_match(#[trigger] calls_view(accumulated@)[j], inc@),
                found ==> i < accumulated.len() && pieces_match(calls_view(accumulated@)[i as int], inc@),
                !found ==> i == accumulated.len(),
            decreases accumulated.len() - i,
        {
            let tc = &accumulated[i];
            let m = match (tc.index, inc.index) {
                (Some(a), Some(b)) => a == b,
                _ => !tc.id.as_str().is_empty() && tc.id == inc.id,
            };
            if m {
                found = true;
                break;
            }
            i = i + 1;
        }
        let ghost before = calls_view(accumulated@);
        proof {
            lemma_first_match(before, inc@, i as int);
            assert(incs.subrange(0, k as int + 1).drop_last() =~= incs.subrange(0, k as int));
        }
        if found {
            let merged = merge_into(&accumulated[i], inc);
            accumulated.set(i, merged);
            proof {
                assert(calls_view(accumulated@) =~= before.update(i as int, merge_piece(before[i as int], inc@)));
            }
        } else {
            accumulated.push(inc.clone());
            proof {
                assert(calls_view(accumulated@) =~= before.push(inc@));
            }
        }
        k = k + 1;
    }
    proof {
        assert(incs.subrange(0, incs.len() as int) =~= incs);
    }
}

/// The arguments text of the pieces, joined in order.
pub open spec fn joined_arguments(incs: Seq<ToolCallView>) -> Seq<char>
    decreases incs.len(),
{
    if incs.len() == 0 {
        Seq::empty()
    } else {
        joined_arguments(incs.drop_last()) + match incs.last().function {
            Some(f) => f.arguments,
            None => Seq::empty(),
        }
    }
}

/// Merging a piece into a call keeps the call's id unless the piece brings
/// one of its own, and appends the piece's arguments text to the call's.
pub proof fn law_merge_piece_keeps_id(tc: ToolCallView, inc: ToolCallView)
    ensures
        inc.id.len() == 0 ==> merge_piece(tc, inc).id == tc.id,
        inc.id.len() > 0 ==> merge_piece(tc, inc).id == inc.id,
        (tc.function is Some && inc.function is Some) ==> merge_piece(tc, inc).function is Some
            && merge_piece(tc, inc).function->0.arguments == tc.function->0.arguments + inc.function->0.arguments,
{
}

/// A call streamed as pieces of one index, the first carrying the call's id
/// and name and the rest carrying neither, comes out as one call with that
/// id and name, and with the pieces' arguments text joined in order.
pub proof fn law_streamed_call_is_whole(incs: Seq<ToolCallView>, k: u32)
    requires
        incs.len() > 0,
        incs[0].id.len() > 0,
        forall|j: int| 0 <= j < incs.len() ==> (#[trigger] incs[j]).index == Some(k) && incs[j].function is Some,
        forall|j: int| 0 < j < incs.len() ==> (#[trigger] incs[j]).id.len() == 0 && incs[j].function->0.name.len() == 0,
    ensures
        merge_all(Seq::empty(), incs).len() == 1,
        merge_all(Seq::empty(), incs)[0].id == incs[0].id,
        merge_all(Seq::empty(), incs)[0].index == Some(k),
        merge_all(Seq::empty(), incs)[0].function == Some(FunctionView {
            name: incs[0].function->0.name,
            arguments: joined_arguments(incs),
        }),
    decreases incs.len(),
{
    let e = Seq::<ToolCallView>::empty();
    if incs.len() == 1 {
        assert(incs.drop_last() =~= e);
        assert(merge_all(e, incs.drop_last()) == e);
        assert(first_match(e, incs[0]) is None);
        assert(joined_arguments(incs.drop_last()) =~= Seq::<char>::empty());
        assert(joined_arguments(incs) =~= incs[0].function->0.arguments);
    } else {
        let d = incs.drop_last();
        assert forall|j: int| 0 <= j < d.len() implies (#[trigger] d[j]).index == Some(k) && d[j].function is Some by {
            assert(d[j] == incs[j]);
        }
        assert forall|j: int| 0 < j < d.len() implies (#[trigger] d[j]).id.len() == 0 && d[j].function->0.name.len() == 0 by {
            assert(d[j] == incs[j]);
        }
        assert(d[0] == incs[0]);
        law_streamed_call_is_whole(d, k);
        let acc = merge_all(e, d);
        let last = incs.last();
        assert(last == incs[incs.len() - 1]);
        assert(acc.drop_last() =~= e);
        assert(first_match(acc.drop_last(), last) is None);
        assert(pieces_match(acc.last(), last));
        assert(first_match(acc, last) == Some(0int));
        assert(merge_all(e, incs) == acc.update(0, merge_piece(acc[0], last)));
    }
}

} // verus!
