//! What holds of a language as coprocessors are added to it and looked up in it.

use vstd::prelude::*;

use crate::lang::{Lang, Meta, ZExprPtr};

verus! {

/// Only the tag of the universal reduction counts as universal.
pub proof fn law_only_lurk_is_lurk(meta: &Meta, b: bool)
    requires
        call_ensures(Meta::is_lurk, (meta,), b),
    ensures
        b <==> *meta == Meta::Lurk,
        !b <==> *meta is Coprocessor,
{
}

/// A new language has no coprocessors: nothing is found in it.
pub proof fn law_new_language_is_empty<C>(
    lang: Lang<C>,
    count: usize,
    z_ptr: &ZExprPtr,
    found: Option<usize>,
    index: usize,
    at: Option<&ZExprPtr>,
)
    requires
        call_ensures(Lang::<C>::new, (), lang),
        call_ensures(Lang::<C>::coprocessor_count, (&lang,), count),
        call_ensures(Lang::<C>::get_index, (&lang, z_ptr), found),
        call_ensures(Lang::<C>::get_coprocessor_z_ptr, (&lang, index), at),
    ensures
        count == 0,
        found is None,
        at is None,
{
}

/// Looking up an address gives its position, and looking at that position gives the address back.
pub proof fn law_position_holds_the_address<C>(
    lang: &Lang<C>,
    z_ptr: &ZExprPtr,
    index: usize,
    at: Option<&ZExprPtr>,
)
    requires
        call_ensures(Lang::<C>::get_index, (lang, z_ptr), Some(index)),
        call_ensures(Lang::<C>::get_coprocessor_z_ptr, (lang, index), at),
    ensures
        at == Some(z_ptr),
{
}

/// Looking at a position gives an address, and looking that up gives the position back.
pub proof fn law_address_is_at_the_position<C>(
    lang: &Lang<C>,
    index: usize,
    z_ptr: &ZExprPtr,
    found: Option<usize>,
)
    requires
        call_ensures(Lang::<C>::get_coprocessor_z_ptr, (lang, index), Some(z_ptr)),
        call_ensures(Lang::<C>::get_index, (lang, z_ptr), found),
    ensures
        found == Some(index),
{
    assert(lang.z_ptrs()[index as int] == *z_ptr);
}

/// There is an address at every position below the number of coprocessors, and at no other: that
/// of the coprocessor which the language holds there.
pub proof fn law_positions_are_below_the_count<C>(
    lang: &Lang<C>,
    count: usize,
    index: usize,
    at: Option<&ZExprPtr>,
)
    requires
        call_ensures(Lang::<C>::coprocessor_count, (lang,), count),
        call_ensures(Lang::<C>::get_coprocessor_z_ptr, (lang, index), at),
    ensures
        at is Some <==> index < count,
        at matches Some(z_ptr) ==> *z_ptr == lang@[index as int].0,
        count == lang@.len(),
{
}

/// A coprocessor that is added is found: where its address was found before, or else behind all
/// others.
pub proof fn law_added_coprocessor_is_found<C>(
    lang: &mut Lang<C>,
    z_ptr: ZExprPtr,
    coprocessor: C,
    count: usize,
    before: Option<usize>,
    after: Option<usize>,
)
    requires
        call_ensures(Lang::<C>::coprocessor_count, (old(lang),), count),
        call_ensures(Lang::<C>::get_index, (old(lang), &z_ptr), before),
        call_ensures(Lang::<C>::add_coprocessor, (lang, z_ptr, coprocessor), ()),
        call_ensures(Lang::<C>::get_index, (final(lang), &z_ptr), after),
    ensures
        after == match before {
            Some(index) => Some(index),
            None => Some(count),
        },
        final(lang)@[after->0 as int] == (z_ptr, coprocessor),
{
    let old_z_ptrs = old(lang).z_ptrs();
    let new_z_ptrs = final(lang).z_ptrs();
    let index = match before {
        Some(index) => index as int,
        None => count as int,
    };
    assert(new_z_ptrs[index] == z_ptr);
    assert(new_z_ptrs[after->0 as int] == z_ptr);
}

/// Adding a coprocessor leaves every other one at its position, and adds none but this.
pub proof fn law_adding_keeps_the_others<C>(
    lang: &mut Lang<C>,
    z_ptr: ZExprPtr,
    coprocessor: C,
    other: ZExprPtr,
    before: Option<usize>,
    after: Option<usize>,
)
    requires
        other != z_ptr,
        call_ensures(Lang::<C>::get_index, (old(lang), &other), before),
        call_ensures(Lang::<C>::add_coprocessor, (lang, z_ptr, coprocessor), ()),
        call_ensures(Lang::<C>::get_index, (final(lang), &other), after),
    ensures
        after == before,
        before matches Some(index) ==> final(lang)@[index as int] == old(lang)@[index as int],
{
    let old_z_ptrs = old(lang).z_ptrs();
    let new_z_ptrs = final(lang).z_ptrs();
    if before is Some {
        assert(new_z_ptrs[before->0 as int] == other);
    }
    if after is Some {
        assert(old_z_ptrs[after->0 as int] == other);
    }
}

/// The number of coprocessors grows by one where the address was not found before, and stays
/// where it was.
pub proof fn law_adding_counts_new_addresses<C>(
    lang: &mut Lang<C>,
    z_ptr: ZExprPtr,
    coprocessor: C,
    found: Option<usize>,
    before: usize,
    after: usize,
)
    requires
        call_ensures(Lang::<C>::get_index, (old(lang), &z_ptr), found),
        call_ensures(Lang::<C>::coprocessor_count, (old(lang),), before),
        call_ensures(Lang::<C>::add_coprocessor, (lang, z_ptr, coprocessor), ()),
        call_ensures(Lang::<C>::coprocessor_count, (final(lang),), after),
    ensures
        after == before + if found is Some {
            0int
        } else {
            1
        },
{
}

} // verus!
