//! Decisions of the command handlers.

use vstd::prelude::*;
use crate::error::{SelectionError, SwpError};
use crate::text::{chars_of, push_chars_vec, string_of, trim_chars, trim_spec, string_views};
use crate::wallpaper_core::lists::{parse_uuid, uuid_parse};

verus! {

/// Words joined with single spaces between them (`[String]::join(" ")`).
pub open spec fn join_words(words: Seq<Seq<char>>) -> Seq<char>
    decreases words.len(),
{
    if words.len() == 0 {
        Seq::empty()
    } else if words.len() == 1 {
        words[0]
    } else {
        join_words(words.drop_last()) + seq![' '] + words.last()
    }
}

/// What `swp set` does with its arguments.
#[derive(Debug)]
pub enum SetRequest {
    /// Let the user pick a wallpaper.
    Interactive,
    /// Resolve this query (a path or words of a name).
    Query(String),
}

/// What `swp set <name>...` asks for: the arguments joined by spaces and
/// trimmed; with nothing left, an interactive pick.
pub fn handle_set(name: &Vec<String>) -> (r: SetRequest)
    ensures
        trim_spec(join_words(string_views(name@))).len() == 0 ==> r is Interactive,
        trim_spec(join_words(string_views(name@))).len() > 0 ==> (r matches SetRequest::Query(q) && q@
            == trim_spec(join_words(string_views(name@)))),
{
    let mut joined: Vec<char> = Vec::new();
    let mut i: usize = 0;
    assert(string_views(name@).subrange(0, 0) =~= Seq::<Seq<char>>::empty());
    while i < name.len()
        invariant
            i <= name.len(),
            joined@ == join_words(string_views(name@).subrange(0, i as int)),
        decreases name.len() - i,
    {
        let ghost pre = string_views(name@).subrange(0, i as int);
        let ghost next = string_views(name@).subrange(0, i + 1);
        assert(next.drop_last() =~= pre);
        assert(next.last() == name@[i as int]@);
        if i > 0 {
            joined.push(' ');
        }
        let w = chars_of(name[i].as_str());
        push_chars_vec(&mut joined, &w);
        if i == 0 {
            assert(joined@ =~= join_words(next));
        }
        i = i + 1;
    }
    assert(string_views(name@).subrange(0, name@.len() as int) =~= string_views(name@));
    let t = trim_chars(&joined);
    if t.len() == 0 {
        SetRequest::Interactive
    } else {
        SetRequest::Query(string_of(&t))
    }
}

/// What `swp rmv [name]` asks for: the name trimmed; with no name, or
/// nothing left of it, an interactive pick.
pub fn rmv_request(name: &Option<String>) -> (r: SetRequest)
    ensures
        match name {
            Some(n) => if trim_spec(n@).len() == 0 {
                r is Interactive
            } else {
                r matches SetRequest::Query(q) && q@ == trim_spec(n@)
            },
            None => r is Interactive,
        },
{
    match name {
        Some(n) => {
            let t = trim_chars(&chars_of(n.as_str()));
            if t.len() == 0 {
                SetRequest::Interactive
            } else {
                SetRequest::Query(string_of(&t))
            }
        },
        None => SetRequest::Interactive,
    }
}

/// The next step of `swp rmv`, once a wallpaper has been picked or a
/// removal confirmed.
#[derive(Debug)]
pub enum RmvStep {
    /// Ask whether to remove the wallpaper at this path.
    Confirm(String),
    /// Remove the wallpaper at this path.
    Remove(String),
    /// Stop with this outcome; `Ok` without a removal means canceled.
    Done(Result<(), SwpError>),
}

/// What follows the pick of the wallpaper to remove: with `--force` its
/// removal, else a confirmation; a canceled pick ends the command without
/// error, any other failure ends it with that error.
pub fn rmv_after_pick(picked: Result<String, SwpError>, force: bool) -> (r: RmvStep)
    ensures
        match picked {
            Ok(p) => if force {
                r == RmvStep::Remove(p)
            } else {
                r == RmvStep::Confirm(p)
            },
            Err(SwpError::Selection(SelectionError::Canceled)) => r matches RmvStep::Done(Ok(())),
            Err(e) => r == RmvStep::Done(Err(e)),
        },
{
    match picked {
        Ok(p) => if force {
            RmvStep::Remove(p)
        } else {
            RmvStep::Confirm(p)
        },
        Err(SwpError::Selection(SelectionError::Canceled)) => RmvStep::Done(Ok(())),
        Err(e) => RmvStep::Done(Err(e)),
    }
}

/// What follows the answer to the confirmation for `path`: a yes removes
/// it; a no or a canceled prompt ends the command without error; any other
/// failure ends it with that error.
pub fn rmv_after_confirm(path: String, answer: Result<bool, SwpError>) -> (r: RmvStep)
    ensures
        match answer {
            Ok(true) => r == RmvStep::Remove(path),
            Ok(false) => r matches RmvStep::Done(Ok(())),
            Err(SwpError::Selection(SelectionError::Canceled)) => r matches RmvStep::Done(Ok(())),
            Err(e) => r == RmvStep::Done(Err(e)),
        },
{
    match answer {
        Ok(true) => RmvStep::Remove(path),
        Ok(false) => RmvStep::Done(Ok(())),
        Err(SwpError::Selection(SelectionError::Canceled)) => RmvStep::Done(Ok(())),
        Err(e) => RmvStep::Done(Err(e)),
    }
}

/// The ids among `inputs`, in order: those that read as UUIDs.
pub open spec fn input_ids(inputs: Seq<String>) -> Seq<u128>
    decreases inputs.len(),
{
    if inputs.len() == 0 {
        Seq::empty()
    } else {
        let rest = input_ids(inputs.drop_last());
        match uuid_parse(inputs.last()@) {
            Ok(id) => rest.push(id),
            Err(_) => rest,
        }
    }
}

/// The inputs that do not read as UUIDs, in order.
pub open spec fn input_queries(inputs: Seq<String>) -> Seq<String> {
    inputs.filter(|s: String| uuid_parse(s@) is Err)
}

/// The arguments of `swp lists remove <list> <wallpaper>...` split into
/// the ids given as UUIDs and the other inputs, left to resolve as paths
/// or names.
pub fn split_remove_inputs(inputs: &Vec<String>) -> (r: (Vec<u128>, Vec<String>))
    ensures
        r.0@ == input_ids(inputs@),
        r.1@ == input_queries(inputs@),
{
    broadcast use Seq::lemma_filter_push;

    let ghost pred = |s: String| uuid_parse(s@) is Err;
    let mut ids: Vec<u128> = Vec::new();
    let mut queries: Vec<String> = Vec::new();
    let mut i: usize = 0;
    assert(inputs@.subrange(0, 0) =~= Seq::<String>::empty());
    assert(queries@ =~= inputs@.subrange(0, 0).filter(pred)) by {
        reveal(Seq::filter);
    }
    while i < inputs.len()
        invariant
            i <= inputs.len(),
            pred == (|s: String| uuid_parse(s@) is Err),
            ids@ == input_ids(inputs@.subrange(0, i as int)),
            queries@ == inputs@.subrange(0, i as int).filter(pred),
        decreases inputs.len() - i,
    {
        let ghost pre = inputs@.subrange(0, i as int);
        assert(inputs@.subrange(0, i + 1) =~= pre.push(inputs@[i as int]));
        assert(inputs@.subrange(0, i + 1).drop_last() =~= pre);
        proof {
            pre.lemma_filter_push(inputs@[i as int], pred);
        }
        match parse_uuid(inputs[i].as_str()) {
            Ok(id) => {
                ids.push(id);
            },
            Err(_) => {
                queries.push(inputs[i].clone());
            },
        }
        i = i + 1;
    }
    assert(inputs@.subrange(0, inputs@.len() as int) =~= inputs@);
    (ids, queries)
}

} // verus!
