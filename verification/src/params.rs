//! The parameters of the calls: the expansion of a range among them, and how the
//! parameters of each call become JSON.

use vstd::prelude::*;
use crate::config::{
    parse_range, range_outcome, RangeOutcome, INVALID_RANGE_BOUND, INVALID_RANGE_FORMAT,
    INVALID_RANGE_ORDER,
};
use vstd::string::StringExecFns;
use crate::text::{contains_text, first_occurrence, join_with, joined, push_char, texts_of};

verus! {

/// Whether `token` is written as a range: `..` stands in it.
pub open spec fn is_range(token: Seq<char>) -> bool {
    first_occurrence(token, seq!['.', '.'], 0) is Some
}

/// The position of the first range among the tokens of `list` at or after `from`.
pub open spec fn first_range(list: Seq<Seq<char>>, from: int) -> Option<int>
    decreases list.len() - from,
{
    if from < 0 || from >= list.len() {
        None
    } else if is_range(list[from]) {
        Some(from)
    } else {
        first_range(list, from + 1)
    }
}

/// The position of the first list at or after `from` that holds a range.
pub open spec fn first_ranged(lists: Seq<Seq<Seq<char>>>, from: int) -> Option<int>
    decreases lists.len() - from,
{
    if from < 0 || from >= lists.len() {
        None
    } else if first_range(lists[from], 0) is Some {
        Some(from)
    } else {
        first_ranged(lists, from + 1)
    }
}

/// The list that `first_ranged` finds holds a range.
pub proof fn lemma_first_ranged(lists: Seq<Seq<Seq<char>>>, from: int)
    ensures
        first_ranged(lists, from) matches Some(p) ==> from <= p < lists.len() && first_range(
            lists[p],
            0,
        ) is Some,
    decreases lists.len() - from,
{
    if 0 <= from < lists.len() && first_range(lists[from], 0) is None {
        lemma_first_ranged(lists, from + 1);
    }
}

/// The views of lists of strings.
pub open spec fn lists_of(lists: Seq<Vec<String>>) -> Seq<Seq<Seq<char>>> {
    lists.map_values(|l: Vec<String>| texts_of(l@))
}

/// What the expansion of the one range among lists of parameters comes to.
pub enum Expansion {
    /// The lists of parameters, one for each call.
    Lists(Seq<Seq<Seq<char>>>),
    /// There is more than one range.
    RepeatedRange,
    /// The range is not a range of numbers; the outcome says why.
    InvalidRange(RangeOutcome),
}

/// The lists of parameters that `lists` stands for.
///
/// Without a range the lists stand for themselves. With one range, the list that holds it
/// stands for one list for each value of the range, the value in the place of the range;
/// the lists before it stand for themselves, and the lists after it are left out. The
/// first range is read before a second one is looked for.
pub open spec fn expansion(lists: Seq<Seq<Seq<char>>>) -> Expansion {
    match first_ranged(lists, 0) {
        None => Expansion::Lists(lists),
        Some(p) => {
            let list = lists[p];
            let j = first_range(list, 0)->0;
            match range_outcome(list[j]) {
                RangeOutcome::Items(items) => if first_range(list, j + 1) is Some || first_ranged(
                    lists,
                    p + 1,
                ) is Some {
                    Expansion::RepeatedRange
                } else {
                    Expansion::Lists(
                        lists.take(p) + Seq::new(items.len(), |k: int| list.update(j, items[k])),
                    )
                },
                bad => Expansion::InvalidRange(bad),
            }
        },
    }
}

/// Why the parameters of the command line give no list of calls.
#[derive(Debug, PartialEq, Eq)]
pub enum ParamsError {
    /// No parameters are given.
    MissingParams,
    /// No method is given.
    MissingMethod,
    /// More than one range is given.
    RepeatedRange,
    /// The range is not a range of numbers; the message says why.
    InvalidRange(&'static str),
}

/// The position of the first range among the tokens of `list` at or after `from`.
pub fn find_range(list: &Vec<String>, from: usize) -> (r: Option<usize>)
    ensures
        match r {
            Some(j) => first_range(texts_of(list@), from as int) == Some(j as int) && j < list.len(),
            None => first_range(texts_of(list@), from as int) is None,
        },
{
    let dots: Vec<char> = vec!['.', '.'];
    assert(dots@ =~= seq!['.', '.']);
    let mut j: usize = from;
    while j < list.len()
        invariant
            from <= j,
            dots@ == seq!['.', '.'],
            first_range(texts_of(list@), from as int) == first_range(texts_of(list@), j as int),
        decreases list.len() - j,
    {
        if contains_text(list[j].as_str(), &dots) {
            return Some(j);
        }
        j = j + 1;
    }
    None
}

/// The position of the first list at or after `from` that holds a range.
pub fn find_ranged(lists: &Vec<Vec<String>>, from: usize) -> (r: Option<usize>)
    ensures
        match r {
            Some(p) => first_ranged(lists_of(lists@), from as int) == Some(p as int) && p
                < lists.len(),
            None => first_ranged(lists_of(lists@), from as int) is None,
        },
{
    let mut p: usize = from;
    while p < lists.len()
        invariant
            from <= p,
            first_ranged(lists_of(lists@), from as int) == first_ranged(lists_of(lists@), p as int),
        decreases lists.len() - p,
    {
        if find_range(&lists[p], 0).is_some() {
            return Some(p);
        }
        p = p + 1;
    }
    None
}

/// A copy of `list`.
pub fn copy_list(list: &Vec<String>) -> (r: Vec<String>)
    ensures
        texts_of(r@) == texts_of(list@),
{
    let mut r: Vec<String> = Vec::new();
    let mut i: usize = 0;
    while i < list.len()
        invariant
            i <= list.len(),
            texts_of(r@) == texts_of(list@).take(i as int),
        decreases list.len() - i,
    {
        let ghost before = texts_of(r@);
        r.push(list[i].clone());
        assert(texts_of(r@) =~= before.push(list@[i as int]@));
        assert(texts_of(list@).take(i + 1) =~= texts_of(list@).take(i as int).push(list@[i as int]@));
        i = i + 1;
    }
    assert(texts_of(list@).take(list@.len() as int) =~= texts_of(list@));
    r
}

/// Expands the one range among lists of parameters into one list for each of its values.
pub fn expand_ranges(lists: &Vec<Vec<String>>) -> (r: Result<Vec<Vec<String>>, ParamsError>)
    ensures
        match expansion(lists_of(lists@)) {
            Expansion::Lists(expanded) => r matches Ok(v) && lists_of(v@) == expanded,
            Expansion::RepeatedRange => r == Err::<Vec<Vec<String>>, ParamsError>(
                ParamsError::RepeatedRange,
            ),
            Expansion::InvalidRange(bad) => r matches Err(ParamsError::InvalidRange(e)) && e@
                == range_error_text(bad),
        },
{
    let ghost all = lists_of(lists@);
    let mut out: Vec<Vec<String>> = Vec::new();
    let p = match find_ranged(lists, 0) {
        None => {
            let mut i: usize = 0;
            while i < lists.len()
                invariant
                    i <= lists.len(),
                    lists_of(out@) == lists_of(lists@).take(i as int),
                decreases lists.len() - i,
            {
                let ghost before = lists_of(out@);
                let copy = copy_list(&lists[i]);
                out.push(copy);
                assert(lists_of(out@) =~= before.push(texts_of(copy@)));
                assert(lists_of(lists@).take(i + 1) =~= lists_of(lists@).take(i as int).push(
                    texts_of(lists@[i as int]@),
                ));
                i = i + 1;
            }
            assert(lists_of(lists@).take(lists@.len() as int) =~= lists_of(lists@));
            return Ok(out);
        },
        Some(p) => p,
    };
    let list = &lists[p];
    proof {
        assert(all[p as int] == texts_of(list@));
        lemma_first_ranged(all, 0);
    }
    let j = match find_range(list, 0) {
        Some(j) => j,
        None => vstd::pervasive::unreached(),
    };
    assert(texts_of(list@)[j as int] == list@[j as int]@);
    let items = match parse_range(list[j].as_str()) {
        Ok(items) => items,
        Err(e) => {
            return Err(ParamsError::InvalidRange(e));
        },
    };
    if find_range(list, j + 1).is_some() || find_ranged(lists, p + 1).is_some() {
        return Err(ParamsError::RepeatedRange);
    }
    let mut i: usize = 0;
    while i < p
        invariant
            i <= p < lists.len(),
            lists_of(out@) == lists_of(lists@).take(i as int),
        decreases p - i,
    {
        let ghost before = lists_of(out@);
        let copy = copy_list(&lists[i]);
        out.push(copy);
        assert(lists_of(out@) =~= before.push(texts_of(copy@)));
        assert(lists_of(lists@).take(i + 1) =~= lists_of(lists@).take(i as int).push(
            texts_of(lists@[i as int]@),
        ));
        i = i + 1;
    }
    let ghost values = texts_of(items@);
    let ghost head = all.take(p as int);
    let mut k: usize = 0;
    while k < items.len()
        invariant
            k <= items.len(),
            j < list.len(),
            values == texts_of(items@),
            head == lists_of(lists@).take(p as int),
            lists_of(out@) == head + Seq::new(
                k as nat,
                |n: int| texts_of(list@).update(j as int, values[n]),
            ),
        decreases items.len() - k,
    {
        let ghost before = lists_of(out@);
        let mut copy = copy_list(list);
        let ghost copied = texts_of(copy@);
        assert(copied.len() == copy@.len());
        assert(texts_of(list@).len() == list@.len());
        copy.set(j, items[k].clone());
        assert(texts_of(copy@) =~= copied.update(j as int, values[k as int]));
        out.push(copy);
        assert(lists_of(out@) =~= before.push(texts_of(copy@)));
        assert(before.push(texts_of(copy@)) =~= head + Seq::new(
            (k + 1) as nat,
            |n: int| texts_of(list@).update(j as int, values[n]),
        ));
        k = k + 1;
    }
    Ok(out)
}

/// The message that `parse_range` gives for an outcome that holds no values.
pub open spec fn range_error_text(outcome: RangeOutcome) -> Seq<char> {
    match outcome {
        RangeOutcome::BadFormat => INVALID_RANGE_FORMAT@,
        RangeOutcome::BadBound => INVALID_RANGE_BOUND@,
        RangeOutcome::BadOrder => INVALID_RANGE_ORDER@,
        RangeOutcome::Items(_) => Seq::empty(),
    }
}

/// The JSON value that `text` spells, as `serde_json` writes it out in its short form;
/// `None` where `text` is no JSON.
pub uninterp spec fn json_text(text: Seq<char>) -> Option<Seq<char>>;

/// `text` as `serde_json` writes it out as a JSON string, between quotes and with what
/// must be escaped in it escaped.
pub uninterp spec fn json_string(text: Seq<char>) -> Seq<char>;

/// `serde_json::from_str` and the `Display` of the `Value` that it gives: the value that
/// `text` spells, written out in the short form, or nothing where `text` is no JSON.
#[verifier::external_body]
fn read_json(text: &str) -> (r: Option<String>)
    ensures
        match r {
            Some(json) => json_text(text@) == Some(json@),
            None => json_text(text@) is None,
        },
{
    match serde_json::from_str::<serde_json::Value>(text) {
        Ok(value) => Some(value.to_string()),
        Err(_) => None,
    }
}

/// The `Display` of a `serde_json::Value::String`: `text` written out as a JSON string.
#[verifier::external_body]
fn quote_json(text: &str) -> (r: String)
    ensures
        r@ == json_string(text@),
{
    serde_json::Value::String(text.to_owned()).to_string()
}

/// The JSON that a token of the command line stands for: the value that it spells where
/// it is JSON, else the token itself as a string.
pub open spec fn json_or_string(token: Seq<char>) -> Seq<char> {
    match json_text(token) {
        Some(json) => json,
        None => json_string(token),
    }
}

/// The JSON array of the values `items`, each given as JSON.
pub open spec fn json_array(items: Seq<Seq<char>>) -> Seq<char> {
    seq!['['] + joined(items, seq![',']) + seq![']']
}

/// The JSON that a token of the command line stands for.
pub fn value_or_string(value: &str) -> (r: String)
    ensures
        r@ == json_or_string(value@),
{
    match read_json(value) {
        Some(json) => json,
        None => quote_json(value),
    }
}

/// The JSON array of the values `items`, each given as JSON.
pub fn json_array_text(items: &Vec<String>) -> (r: String)
    ensures
        r@ == json_array(texts_of(items@)),
{
    proof {
        reveal_strlit(",");
        assert(","@ =~= seq![',']);
    }
    let mut text = String::new();
    push_char(&mut text, '[');
    text.append(join_with(items, ",").as_str());
    push_char(&mut text, ']');
    assert(text@ =~= json_array(texts_of(items@)));
    text
}

/// The parameters of one call.
#[derive(Debug, PartialEq, Eq)]
pub enum RpcParams {
    /// The parameters are the first JSON value that the standard input holds.
    Stdin,
    /// The parameters are this JSON.
    Json(String),
}

/// What is observable of an `RpcParams`.
pub enum RpcParamsView {
    Stdin,
    Json(Seq<char>),
}

impl View for RpcParams {
    type V = RpcParamsView;

    open spec fn view(&self) -> RpcParamsView {
        match self {
            RpcParams::Stdin => RpcParamsView::Stdin,
            RpcParams::Json(text) => RpcParamsView::Json(text@),
        }
    }
}

/// The JSON of each of the tokens `params`.
pub open spec fn json_values(params: Seq<Seq<char>>) -> Seq<Seq<char>> {
    params.map_values(|token: Seq<char>| json_or_string(token))
}

/// The parameters that the tokens `params` of one call stand for. Raw parameters are read
/// from the standard input where there is no token, and else are the JSON of the tokens
/// joined by single spaces. Parameters that are not raw are the array of the JSON of each
/// token.
pub open spec fn rpc_params(params: Seq<Seq<char>>, raw: bool) -> RpcParamsView {
    if raw {
        if params.len() == 0 {
            RpcParamsView::Stdin
        } else {
            RpcParamsView::Json(json_or_string(joined(params, seq![' '])))
        }
    } else {
        RpcParamsView::Json(json_array(json_values(params)))
    }
}

/// The JSON of each of the tokens `params`.
pub fn values_or_strings(params: &Vec<String>) -> (values: Vec<String>)
    ensures
        texts_of(values@) == json_values(texts_of(params@)),
{
    let mut values: Vec<String> = Vec::new();
    let mut i: usize = 0;
    while i < params.len()
        invariant
            i <= params.len(),
            texts_of(values@) == json_values(texts_of(params@).take(i as int)),
        decreases params.len() - i,
    {
        let ghost before = texts_of(values@);
        let value = value_or_string(params[i].as_str());
        values.push(value);
        assert(texts_of(values@) =~= before.push(value@));
        assert(texts_of(params@).take(i + 1) =~= texts_of(params@).take(i as int).push(
            params@[i as int]@,
        ));
        assert(json_values(texts_of(params@).take(i + 1)) =~= before.push(value@));
        i = i + 1;
    }
    assert(texts_of(params@).take(params@.len() as int) =~= texts_of(params@));
    values
}

/// The views of calls: the method of each, and how its parameters become JSON.
pub open spec fn calls_of(calls: Seq<(String, RpcParams)>) -> Seq<(Seq<char>, RpcParamsView)> {
    calls.map_values(|call: (String, RpcParams)| (call.0@, call.1@))
}

} // verus!
