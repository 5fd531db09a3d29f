use std::sync::Arc;

use lurk_supernova::config::FoldingConfig;
use lurk_supernova::lang::{Lang, Meta, ZExprPtr};

fn z_ptr(tag: u16) -> ZExprPtr {
    ZExprPtr { tag, digest_low: 7, digest_high: 8 }
}

fn lang() -> Arc<Lang<&'static str>> {
    let mut lang = Lang::new();
    lang.add_coprocessor(z_ptr(10), "ten");
    lang.add_coprocessor(z_ptr(20), "twenty");
    lang.add_coprocessor(z_ptr(30), "thirty");
    Arc::new(lang)
}

#[test]
fn meta_tells_lurk_from_coprocessors() {
    assert!(Meta::Lurk.is_lurk());
    assert!(!Meta::Coprocessor(z_ptr(1)).is_lurk());
}

#[test]
fn coprocessors_are_found_in_order() {
    let lang = lang();
    assert_eq!(lang.coprocessor_count(), 3);
    assert_eq!(lang.get_index(&z_ptr(10)), Some(0));
    assert_eq!(lang.get_index(&z_ptr(30)), Some(2));
    assert_eq!(lang.get_index(&z_ptr(40)), None);
    assert_eq!(lang.get_coprocessor_z_ptr(1), Some(&z_ptr(20)));
    assert_eq!(lang.get_coprocessor_z_ptr(3), None);
}

#[test]
fn addresses_differ_in_each_part() {
    let lang = lang();
    assert_eq!(lang.get_index(&ZExprPtr { tag: 10, digest_low: 7, digest_high: 9 }), None);
    assert_eq!(lang.get_index(&ZExprPtr { tag: 10, digest_low: 6, digest_high: 8 }), None);
}

#[test]
fn adding_under_a_known_address_keeps_the_place() {
    let mut lang = Lang::new();
    lang.add_coprocessor(z_ptr(10), 1);
    lang.add_coprocessor(z_ptr(20), 2);
    lang.add_coprocessor(z_ptr(10), 3);
    assert_eq!(lang.coprocessor_count(), 2);
    assert_eq!(lang.get_index(&z_ptr(10)), Some(0));
    assert_eq!(lang.get_index(&z_ptr(20)), Some(1));
}

#[test]
fn empty_lang_has_no_coprocessors() {
    let lang: Lang<u8> = Lang::new();
    assert_eq!(lang.coprocessor_count(), 0);
    assert_eq!(lang.get_coprocessor_z_ptr(0), None);
}

#[test]
fn ivc_has_one_circuit_for_everything() {
    let config = FoldingConfig::new_ivc(lang(), 5);
    assert_eq!(config.num_circuits(), 1);
    assert_eq!(config.circuit_index(&Meta::Lurk), 0);
    assert_eq!(config.circuit_index(&Meta::Coprocessor(z_ptr(20))), 0);
    assert_eq!(config.circuit_index(&Meta::Coprocessor(z_ptr(99))), 0);
    assert_eq!(config.reduction_count(), 5);
    assert_eq!(config.lang().coprocessor_count(), 3);
}

#[test]
fn nivc_numbers_the_universal_circuit_first() {
    let config = FoldingConfig::new_nivc(lang(), 5);
    assert_eq!(config.num_circuits(), 4);
    assert_eq!(config.circuit_index(&Meta::Lurk), 0);
    assert_eq!(config.circuit_index(&Meta::Coprocessor(z_ptr(10))), 1);
    assert_eq!(config.circuit_index(&Meta::Coprocessor(z_ptr(20))), 2);
    assert_eq!(config.circuit_index(&Meta::Coprocessor(z_ptr(30))), 3);
    assert_eq!(config.reduction_count(), 5);
}

#[test]
fn nivc_without_coprocessors_has_one_circuit() {
    let lang: Arc<Lang<u8>> = Arc::new(Lang::new());
    assert_eq!(FoldingConfig::new_nivc(lang, 1).num_circuits(), 1);
}

#[test]
fn configs_share_their_lang() {
    let lang = lang();
    let config = FoldingConfig::new_nivc(lang.clone(), 2);
    let copy = config.clone();
    assert!(Arc::ptr_eq(config.lang(), &lang));
    assert!(Arc::ptr_eq(copy.lang(), &lang));
    assert_eq!(copy.num_circuits(), 4);
    assert_eq!(copy.reduction_count(), 2);
}
