//! The bridge to the mutation records of the downstream graph store.
//!
//! A node materialises itself into a `MutationUnit` of `dgraph_query_lib`:
//! a set of `(predicate name, value)` pairs attached to one graph vertex.
//! The unit's contents are named here as two maps, one for string-valued
//! and one for number-valued predicates; the unit stores them in a single
//! map keyed by name, so storing a predicate of one kind drops any
//! predicate of the other kind held under the same name.

use vstd::prelude::*;

verus! {

#[verifier::external_type_specification]
#[verifier::external_body]
pub struct ExMutationUnit(dgraph_query_lib::mutation::MutationUnit);

#[verifier::external_type_specification]
#[verifier::external_body]
pub struct ExMutationUID(dgraph_query_lib::mutation::MutationUID);

/// The string-valued predicates a mutation unit holds, by name.
pub uninterp spec fn mutation_strings(m: dgraph_query_lib::mutation::MutationUnit) -> Map<
    Seq<char>,
    Seq<char>,
>;

/// The number-valued predicates a mutation unit holds, by name.
pub uninterp spec fn mutation_numbers(m: dgraph_query_lib::mutation::MutationUnit) -> Map<
    Seq<char>,
    int,
>;

/// True when the unit holds no predicates of either kind.
pub open spec fn mutation_unit_is_empty(m: dgraph_query_lib::mutation::MutationUnit) -> bool {
    mutation_strings(m) == Map::<Seq<char>, Seq<char>>::empty() && mutation_numbers(m)
        == Map::<Seq<char>, int>::empty()
}

/// Relies on `MutationUID::placeholder`: a fresh placeholder uid. The uid
/// embeds a random value, so nothing is promised of it.
#[verifier::external_body]
fn placeholder_uid() -> dgraph_query_lib::mutation::MutationUID {
    dgraph_query_lib::mutation::MutationUID::placeholder()
}

/// Relies on `MutationUnit::new`: a unit built over a uid starts with an
/// empty predicate map.
#[verifier::external_body]
fn mutation_unit_with_uid(
    uid: dgraph_query_lib::mutation::MutationUID,
) -> (r: dgraph_query_lib::mutation::MutationUnit)
    ensures
        mutation_unit_is_empty(r),
{
    dgraph_query_lib::mutation::MutationUnit::new(uid)
}

/// A fresh mutation unit over a placeholder uid, holding no predicates.
pub fn new_mutation_unit() -> (r: dgraph_query_lib::mutation::MutationUnit)
    ensures
        mutation_unit_is_empty(r),
{
    mutation_unit_with_uid(placeholder_uid())
}

/// Relies on `MutationUnit::predicate_ref` with
/// `MutationPredicateValue::string`: inserts the pair into the unit's
/// predicate map, replacing whatever was held under that name.
#[verifier::external_body]
pub fn set_string_predicate(
    m: &mut dgraph_query_lib::mutation::MutationUnit,
    name: &str,
    value: &str,
)
    ensures
        mutation_strings(*final(m)) == mutation_strings(*old(m)).insert(name@, value@),
        mutation_numbers(*final(m)) == mutation_numbers(*old(m)).remove(name@),
{
    m.predicate_ref(name, dgraph_query_lib::mutation::MutationPredicateValue::string(value));
}

/// Relies on `MutationUnit::predicate_ref` with
/// `MutationPredicateValue::Number`: inserts the pair into the unit's
/// predicate map, replacing whatever was held under that name.
#[verifier::external_body]
pub fn set_number_predicate(
    m: &mut dgraph_query_lib::mutation::MutationUnit,
    name: &str,
    value: i64,
)
    ensures
        mutation_numbers(*final(m)) == mutation_numbers(*old(m)).insert(name@, value as int),
        mutation_strings(*final(m)) == mutation_strings(*old(m)).remove(name@),
{
    m.predicate_ref(name, dgraph_query_lib::mutation::MutationPredicateValue::Number(value));
}

} // verus!
