//! How a sandbox is named after the job it runs.

use crate::text::{
    chars_of, decimal, digits_upto, lemma_decimal, lemma_decimal_injective, parse_digits,
    push_decimal, same_text,
};
use vstd::prelude::*;

verus! {

/// The name of the sandbox for a job: `ci-runner-` and the job's id as a
/// decimal numeral.
pub open spec fn container_name(job_id: u64) -> Seq<char> {
    "ci-runner-"@ + decimal(job_id as nat)
}

/// The name of the sandbox that runs the job `job_id`.
pub fn job_id_to_container_name(job_id: u64) -> (name: String)
    ensures
        name@ == container_name(job_id),
{
    let mut name = String::from_str("ci-runner-");
    push_decimal(&mut name, job_id);
    name
}

/// Two jobs never share a sandbox name.
pub proof fn lemma_container_name_injective(a: u64, b: u64)
    requires
        container_name(a) == container_name(b),
    ensures
        a == b,
{
    let prefix = "ci-runner-"@;
    let x = decimal(a as nat);
    let y = decimal(b as nat);
    assert((prefix + x).subrange(prefix.len() as int, (prefix + x).len() as int) == x);
    assert((prefix + y).subrange(prefix.len() as int, (prefix + y).len() as int) == y);
    lemma_decimal_injective(a as nat, b as nat);
}

/// The job that a sandbox is named after, if it is named after one.
pub fn container_name_to_job_id(name: &str) -> (job_id: Option<u64>)
    ensures
        match job_id {
            Some(id) => name@ == container_name(id),
            None => forall|id: u64| name@ != #[trigger] container_name(id),
        },
{
    let chars = chars_of(name);
    proof {
        reveal_strlit("ci-runner-");
        assert forall|id: u64| name@ == #[trigger] container_name(id) implies chars.len() > 10
            && digits_upto(chars@.subrange(10, chars.len() as int), u64::MAX as nat) == Some(
            id as nat,
        ) by {
            lemma_decimal(id as nat);
            assert(chars@.subrange(10, chars.len() as int) == decimal(id as nat));
        }
    }
    if chars.len() < 10 {
        return None;
    }
    let found = match parse_digits(&chars, 10, chars.len(), u64::MAX) {
        Some(id) => id,
        None => {
            return None;
        },
    };
    let again = job_id_to_container_name(found);
    if same_text(again.as_str(), name) {
        Some(found)
    } else {
        None
    }
}

} // verus!
