use vstd::prelude::*;
use crate::text::{decimal, owned, push_decimal, push_str};

verus! {

/// Refuses to export an empty list of results.
pub fn ensure_not_empty<T>(items: &[T]) -> (res: Result<(), String>)
    ensures
        match res {
            Ok(()) => items@.len() > 0,
            Err(e) => items@.len() == 0 && e@ == "No results to export"@,
        },
{
    if items.len() == 0 {
        return Err(owned("No results to export"));
    }
    Ok(())
}

/// Refuses to export results that do not pair one to one with their parameter sets.
pub fn ensure_matching_lengths<T, U>(results: &[T], parameter_sets: &[U]) -> (res: Result<
    (),
    String,
>)
    ensures
        match res {
            Ok(()) => results@.len() == parameter_sets@.len(),
            Err(e) => results@.len() != parameter_sets@.len() && e@ == "Results length ("@
                + decimal(results@.len()) + ") doesn't match parameter_sets length ("@ + decimal(
                parameter_sets@.len(),
            ) + ")"@,
        },
{
    if results.len() != parameter_sets.len() {
        let mut m = owned("Results length (");
        push_decimal(&mut m, results.len() as u64);
        push_str(&mut m, ") doesn't match parameter_sets length (");
        push_decimal(&mut m, parameter_sets.len() as u64);
        push_str(&mut m, ")");
        return Err(m);
    }
    Ok(())
}

} // verus!
