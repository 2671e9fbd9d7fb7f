//! Gathering the quotes of the exchanges.
use vstd::prelude::*;

verus! {

/// The value of a success, nothing for a failure.
pub open spec fn success_of<T>(r: Result<T, String>) -> Option<T> {
    match r {
        Ok(v) => Some(v),
        Err(_) => None,
    }
}

/// The quotes of the exchanges that answered, in the exchanges' order; those that
/// failed are left out.
pub fn successful<T>(results: Vec<Result<T, String>>) -> (r: Vec<T>)
    ensures
        r@ == results@.filter_map(|x: Result<T, String>| success_of(x)),
{
    let ghost all = results@;
    let ghost f = |x: Result<T, String>| success_of(x);
    let mut out: Vec<T> = Vec::new();
    for item in it: results.into_iter()
        invariant
            all == it.seq(),
            f == (|x: Result<T, String>| success_of(x)),
            out@ == all.take(it.index() as int).filter_map(f),
    {
        let ghost i = it.index();
        assert(all.take(i + 1).drop_last() =~= all.take(i as int));
        match item {
            Ok(v) => {
                out.push(v);
            },
            Err(_) => {},
        }
    }
    assert(all.take(all.len() as int) =~= all);
    out
}


/// One more exchange: its quote is added after the others when it answered, and
/// nothing changes when it failed.
pub proof fn lemma_successful_step<T>(results: Seq<Result<T, String>>, r: Result<T, String>)
    ensures
        Seq::<Result<T, String>>::empty().filter_map(|x: Result<T, String>| success_of(x)) == Seq::<T>::empty(),
        results.push(r).filter_map(|x: Result<T, String>| success_of(x)) == match r {
            Ok(v) => results.filter_map(|x: Result<T, String>| success_of(x)).push(v),
            Err(_) => results.filter_map(|x: Result<T, String>| success_of(x)),
        },
{
    let f = |x: Result<T, String>| success_of(x);
    assert(results.push(r).drop_last() =~= results);
    assert(results.push(r).filter_map(f) =~= match r {
        Ok(v) => results.filter_map(f).push(v),
        Err(_) => results.filter_map(f),
    });
}

} // verus!
