use spair::kind::{Kind, ETA_TAG, OMI_TAG};
use spair::store::MapIDK;
use spair::theory::{
    eta, eta_bounded, lore, lore_end, new_eta_kind, new_omi_kind, omi, Mtc, FUEL,
};

fn atom(id: usize) -> Kind {
    Kind::from(id)
}

fn pair(l: Kind, r: Kind) -> Kind {
    Kind::from((l, r))
}

fn native(hid: usize) -> Kind {
    match Kind::native(hid) {
        Ok(k) => k,
        Err(()) => panic!("families from 2 on are free"),
    }
}

fn captured(hid: usize, by: usize) -> Kind {
    Kind::Zta { sid: Some(by), hid }
}

#[test]
fn constructors_build_the_three_shapes() {
    assert!(atom(7) == Kind::Alp { id: 7 });
    assert!(
        pair(atom(1), atom(2))
            == Kind::Pir { l: Box::new(Kind::Alp { id: 1 }), r: Box::new(Kind::Alp { id: 2 }) }
    );
    assert!(native(2) == Kind::Zta { sid: None, hid: 2 });
    assert!(native(usize::MAX) == Kind::Zta { sid: None, hid: usize::MAX });
}

#[test]
fn reserved_families_are_refused() {
    assert!(Kind::native(OMI_TAG) == Err(()));
    assert!(Kind::native(ETA_TAG) == Err(()));
}

#[test]
fn built_in_operations_have_their_tags() {
    assert!(new_omi_kind() == Kind::Zta { sid: None, hid: 0 });
    assert!(new_eta_kind() == Kind::Zta { sid: None, hid: 1 });
}

#[test]
fn clone_copies_the_whole_tree() {
    let t = pair(pair(atom(1), captured(4, 9)), atom(3));
    assert!(t.clone() == t);
}

#[test]
fn seed_wraps_the_continuation() {
    let expected = pair(
        pair(new_omi_kind(), new_omi_kind()),
        pair(new_eta_kind(), atom(5)),
    );
    assert!(lore(atom(5)) == expected);
}

#[test]
fn default_continuation_has_the_fixed_skeleton() {
    let expected = pair(
        new_eta_kind(),
        pair(pair(new_omi_kind(), new_omi_kind()), new_eta_kind()),
    );
    assert!(lore_end() == expected);
}

#[test]
fn store_takes_and_puts_back() {
    let mut store = MapIDK::new();
    assert!(store.get(3).is_none());
    store.set(3, atom(8));
    store.set(4, atom(9));
    assert!(store.get(3) == Some(atom(8)));
    assert!(store.get(3).is_none());
    assert!(store.get(4) == Some(atom(9)));
    store.set(3, atom(1));
    store.set(3, atom(2));
    assert!(store.get(3) == Some(atom(2)));
}

#[test]
fn unbound_variable_captures_any_value() {
    for value in [atom(4), native(6), pair(atom(1), pair(new_omi_kind(), atom(2)))] {
        let mut mt = Mtc::new();
        let mut x = value.clone();
        assert!(mt.mtc(&mut x, &atom(0)));
        assert!(x == value);
        let mut body = atom(0);
        mt.ins(&mut body);
        match &value {
            Kind::Zta { hid, .. } => assert!(body == captured(*hid, 0)),
            _ => assert!(body == value),
        }
    }
}

#[test]
fn capture_leaves_other_variables_unbound() {
    let mut mt = Mtc::new();
    let mut x = atom(4);
    assert!(mt.mtc(&mut x, &atom(0)));
    let mut body = pair(atom(0), atom(1));
    mt.ins(&mut body);
    assert!(body == pair(atom(4), atom(1)));
}

#[test]
fn repeated_variable_matches_equal_operations() {
    let pattern = pair(atom(0), atom(0));
    let mut mt = Mtc::new();
    let mut x = pair(native(5), native(5));
    assert!(mt.mtc(&mut x, &pattern));
    assert!(x == pair(native(5), native(5)));
}

#[test]
fn repeated_variable_refuses_different_operations() {
    let pattern = pair(atom(0), atom(0));
    let mut mt = Mtc::new();
    let mut x = pair(native(5), native(6));
    assert!(!mt.mtc(&mut x, &pattern));
    assert!(x == pair(native(5), native(6)));
}

#[test]
fn repeated_variable_compares_whole_trees() {
    let pattern = pair(atom(0), atom(0));
    let same = pair(native(2), pair(native(3), new_omi_kind()));
    let other = pair(native(2), pair(native(3), native(4)));
    let mut mt = Mtc::new();
    let mut x = pair(same.clone(), same.clone());
    assert!(mt.mtc(&mut x, &pattern));
    let mut mt = Mtc::new();
    let mut x = pair(same.clone(), other);
    assert!(!mt.mtc(&mut x, &pattern));
}

#[test]
fn repeated_variable_ignores_provenance() {
    let pattern = pair(atom(0), atom(0));
    let mut mt = Mtc::new();
    let mut x = pair(captured(5, 3), native(5));
    assert!(mt.mtc(&mut x, &pattern));
}

#[test]
fn repeated_variable_matches_the_same_atom() {
    let pattern = pair(atom(0), atom(0));
    let mut mt = Mtc::new();
    let mut x = pair(atom(7), atom(7));
    assert!(mt.mtc(&mut x, &pattern));
    let mut body = atom(0);
    mt.ins(&mut body);
    assert!(body == atom(7));
}

#[test]
fn atom_in_a_held_value_is_itself_a_variable() {
    let pattern = pair(atom(0), atom(0));
    let mut mt = Mtc::new();
    let mut x = pair(atom(7), atom(8));
    assert!(mt.mtc(&mut x, &pattern));
    let mut body = pair(atom(0), atom(7));
    mt.ins(&mut body);
    assert!(body == pair(atom(7), atom(8)));
}

#[test]
fn failed_second_use_consumes_the_binding() {
    let mut mt = Mtc::new();
    let mut x = native(5);
    assert!(mt.mtc(&mut x, &atom(0)));
    let mut y = native(6);
    assert!(!mt.alp(&mut y, &atom(0)));
    let mut body = atom(0);
    mt.ins(&mut body);
    assert!(body == atom(0));
}

#[test]
fn variable_case_needs_an_atom_pattern() {
    let mut mt = Mtc::new();
    let mut x = atom(1);
    assert!(!mt.alp(&mut x, &native(2)));
    assert!(!mt.alp(&mut x, &pair(atom(1), atom(1))));
}

#[test]
fn structural_case_compares_families() {
    let mut mt = Mtc::new();
    let mut x = captured(3, 1);
    assert!(mt.rec(&mut x, &native(3)));
    assert!(!mt.rec(&mut x, &native(4)));
    assert!(!mt.rec(&mut x, &pair(native(3), native(3))));
    let mut a = atom(1);
    assert!(!mt.rec(&mut a, &native(3)));
    assert!(!mt.rec(&mut a, &atom(1)));
}

#[test]
fn structural_case_stops_at_the_left_child() {
    let mut mt = Mtc::new();
    let mut x = pair(native(2), atom(9));
    assert!(!mt.rec(&mut x, &pair(native(3), atom(0))));
    let mut body = atom(0);
    mt.ins(&mut body);
    assert!(body == atom(0));
}

#[test]
fn terminator_hands_its_input_back() {
    let mut t = pair(pair(atom(0), atom(0)), atom(1));
    match omi(&mut t) {
        Ok(_) => panic!("the terminator never reduces"),
        Err(r) => assert!(*r == pair(pair(atom(0), atom(0)), atom(1))),
    }
    assert!(t == pair(pair(atom(0), atom(0)), atom(1)));
}

#[test]
fn reduction_case_fails_on_the_terminator() {
    let redex = pair(pair(atom(0), atom(0)), atom(1));
    for pattern in [atom(3), new_omi_kind(), native(2), pair(atom(1), atom(2))] {
        let mut mt = Mtc::new();
        let mut x = pair(new_omi_kind(), redex.clone());
        assert!(!mt.zta(&mut x, &pattern));
        assert!(x == pair(new_omi_kind(), redex.clone()));
    }
}

#[test]
fn reduction_case_fails_on_free_families() {
    let mut mt = Mtc::new();
    let mut x = pair(native(2), pair(pair(atom(0), atom(0)), atom(1)));
    assert!(!mt.zta(&mut x, &atom(3)));
}

#[test]
fn reduction_case_reduces_and_matches_anew() {
    let mut mt = Mtc::new();
    let mut x = pair(new_eta_kind(), pair(pair(atom(0), native(4)), atom(1)));
    assert!(mt.zta(&mut x, &native(4)));
    assert!(x == native(4));
}

#[test]
fn reduction_case_needs_fuel() {
    let mut mt = Mtc::with_fuel(0);
    let mut x = pair(new_eta_kind(), pair(pair(atom(0), native(4)), atom(1)));
    assert!(!mt.zta(&mut x, &native(4)));
    assert!(x == pair(new_eta_kind(), pair(pair(atom(0), native(4)), atom(1))));
    assert_eq!(mt.fuel_left(), 0);
    let mut mt = Mtc::with_fuel(1);
    assert!(mt.zta(&mut x, &native(4)));
    assert!(x == native(4));
    assert_eq!(mt.fuel_left(), 0);
}

#[test]
fn fuel_is_spent_by_each_run_of_self_reduction() {
    let redex = |body: Kind| pair(new_eta_kind(), pair(pair(atom(0), body), atom(1)));
    let mut mt = Mtc::with_fuel(10);
    let mut x = redex(redex(redex(native(4))));
    assert!(mt.mtc(&mut x, &native(4)));
    assert!(x == native(4));
    assert_eq!(mt.fuel_left(), 7);
}

#[test]
fn refused_reduction_costs_its_fuel() {
    let mut mt = Mtc::with_fuel(10);
    let mut x = pair(new_eta_kind(), atom(1));
    assert!(!mt.mtc(&mut x, &native(4)));
    assert_eq!(mt.fuel_left(), 9);
    let mut x = pair(new_omi_kind(), atom(1));
    assert!(!mt.mtc(&mut x, &native(4)));
    let mut x = pair(native(3), atom(1));
    assert!(!mt.mtc(&mut x, &native(4)));
    assert_eq!(mt.fuel_left(), 9);
}

#[test]
fn matching_without_reduction_costs_no_fuel() {
    let mut mt = Mtc::new();
    let mut x = pair(atom(1), pair(native(2), atom(1)));
    assert!(mt.mtc(&mut x, &pair(atom(0), pair(native(2), atom(0)))));
    assert_eq!(mt.fuel_left(), FUEL);
}

#[test]
fn match_reduces_a_value_of_the_wrong_shape() {
    let mut mt = Mtc::new();
    let mut x = pair(new_eta_kind(), pair(pair(atom(0), atom(0)), native(7)));
    assert!(mt.mtc(&mut x, &native(7)));
    assert!(x == captured(7, 0));
}

#[test]
fn match_does_not_reduce_what_already_fits() {
    let mut mt = Mtc::new();
    let value = pair(new_eta_kind(), pair(pair(atom(0), atom(0)), native(7)));
    let mut x = value.clone();
    assert!(mt.mtc(&mut x, &pair(new_eta_kind(), atom(3))));
    assert!(x == value);
}

#[test]
fn substitution_replaces_every_bound_atom() {
    let mut mt = Mtc::new();
    let mut x = pair(atom(5), atom(6));
    assert!(mt.mtc(&mut x, &atom(0)));
    let mut body = pair(atom(0), pair(native(3), pair(atom(0), atom(2))));
    mt.ins(&mut body);
    let v = pair(atom(5), atom(6));
    assert!(body == pair(v.clone(), pair(native(3), pair(v, atom(2)))));
}

#[test]
fn reduce_refuses_an_atom() {
    let mut t = atom(3);
    assert!(eta(&mut t).is_err());
    assert!(t == atom(3));
}

#[test]
fn reduce_refuses_a_pair_of_atoms() {
    let mut t = pair(atom(1), atom(2));
    match eta(&mut t) {
        Ok(_) => panic!("a pair of atoms is no redex"),
        Err(r) => assert!(*r == pair(atom(1), atom(2))),
    }
    assert!(t == pair(atom(1), atom(2)));
}

#[test]
fn reduce_refuses_an_operation_on_the_left() {
    let mut t = pair(new_eta_kind(), pair(atom(1), atom(2)));
    assert!(eta(&mut t).is_err());
    assert!(t == pair(new_eta_kind(), pair(atom(1), atom(2))));
}

#[test]
fn reduce_hands_out_the_body() {
    let mut t = pair(pair(atom(0), atom(0)), atom(1));
    match eta(&mut t) {
        Ok(k) => assert!(k == atom(1)),
        Err(_) => panic!("a variable matches any argument"),
    }
    assert!(t == pair(pair(atom(0), new_omi_kind()), atom(1)));
}

#[test]
fn reduce_leaves_unbound_atoms_of_the_body() {
    let mut t = pair(pair(atom(0), atom(1)), atom(2));
    match eta(&mut t) {
        Ok(k) => assert!(k == atom(1)),
        Err(_) => panic!("a variable matches any argument"),
    }
    assert!(t == pair(pair(atom(0), new_omi_kind()), atom(2)));
}

#[test]
fn reduce_fails_where_the_match_fails() {
    let before = pair(pair(native(2), atom(0)), native(3));
    let mut t = before.clone();
    assert!(eta(&mut t).is_err());
    assert!(t == before);
}

#[test]
fn failed_reduce_undoes_reductions_of_the_argument() {
    let inner = pair(pair(atom(0), native(4)), atom(1));
    let before = pair(pair(native(5), atom(9)), pair(new_eta_kind(), inner));
    let mut t = before.clone();
    assert!(eta(&mut t).is_err());
    assert!(t == before);
}

#[test]
fn successful_reduce_keeps_the_reduced_argument() {
    let inner = pair(pair(atom(0), native(4)), atom(1));
    let mut t = pair(pair(native(4), atom(9)), pair(new_eta_kind(), inner));
    match eta(&mut t) {
        Ok(k) => assert!(k == atom(9)),
        Err(_) => panic!("the argument reduces to the pattern"),
    }
    assert!(t == pair(pair(native(4), new_omi_kind()), native(4)));
}

#[test]
fn bounded_reduce_gives_up_without_fuel() {
    let inner = pair(pair(atom(0), native(4)), atom(1));
    let before = pair(pair(native(4), atom(9)), pair(new_eta_kind(), inner));
    let mut t = before.clone();
    let mut fuel = 0;
    assert!(eta_bounded(&mut t, &mut fuel).is_err());
    assert!(t == before);
    let mut fuel = 3;
    assert!(eta_bounded(&mut t, &mut fuel).is_ok());
    assert_eq!(fuel, 2);
}

#[test]
fn more_fuel_gives_the_same_answer() {
    let redex = |body: Kind| pair(new_eta_kind(), pair(pair(atom(0), body), atom(1)));
    let before = pair(pair(native(4), pair(atom(9), atom(9))), redex(redex(native(4))));
    let mut answers = Vec::new();
    for allowance in [2usize, 3, 100, FUEL] {
        let mut t = before.clone();
        let mut fuel = allowance;
        let k = match eta_bounded(&mut t, &mut fuel) {
            Ok(k) => k,
            Err(_) => panic!("two runs suffice"),
        };
        assert_eq!(allowance - fuel, 2);
        answers.push((k, t));
    }
    assert!(answers.iter().all(|a| *a == answers[0]));
    let mut t = before.clone();
    let mut fuel = 1;
    assert!(eta_bounded(&mut t, &mut fuel).is_err());
    assert_eq!(fuel, 0);
}

#[test]
fn bounded_reduce_ends_an_endless_reduction() {
    let w = || atom(0);
    let e = || new_eta_kind();
    let half = || pair(w(), pair(e(), pair(w(), w())));
    let omega = pair(e(), pair(half(), half()));
    let before = pair(pair(native(9), atom(1)), omega);
    let mut t = before.clone();
    let mut fuel = 50;
    assert!(eta_bounded(&mut t, &mut fuel).is_err());
    assert!(t == before);
    assert_eq!(fuel, 0);
}

#[test]
fn seeded_terminators_reduce_to_the_terminator() {
    let program = pair(pair(atom(0), pair(pair(atom(1), atom(2)), atom(3))), atom(1));
    let mut t = lore(pair(program, lore_end()));
    match eta(&mut t) {
        Ok(k) => assert!(k == new_omi_kind()),
        Err(_) => panic!("the program answers with a terminator"),
    }
}
