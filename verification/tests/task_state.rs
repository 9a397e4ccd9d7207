use openwa_core::task::{
    CTaskBfsIter, SharedDataNode, SharedDataTable, TaskNode, TaskTree, WormState,
    SHARED_DATA_BUCKETS,
};
use openwa_core::weapon::{FireMethod, FireType, SpecialFireSubtype, Weapon, WEAPON_COUNT};

fn table_with(nodes: &[SharedDataNode]) -> SharedDataTable {
    let mut buckets: Vec<Vec<SharedDataNode>> = vec![Vec::new(); SHARED_DATA_BUCKETS];
    for n in nodes {
        let b = SharedDataTable::bucket_for(n.key_esi, n.key_edi) as usize;
        buckets[b].push(*n);
    }
    SharedDataTable { buckets }
}

#[test]
fn bucket_hash_values() {
    assert_eq!(SharedDataTable::bucket_for(1, 2), 19);
    assert_eq!(SharedDataTable::bucket_for(0x10, 0), 0x10);
    // The multiply-add wraps at 32 bits.
    assert_eq!(SharedDataTable::bucket_for(0x1000_0000, 5), 5);
    // A sum with the top bit set and a non-zero low byte maps to a
    // negative remainder.
    assert_eq!(SharedDataTable::bucket_for(0, 0x8000_0001), 0xFFFF_FF01);
    assert_eq!(SharedDataTable::bucket_for(0, 0x8000_0100), 0);
}

#[test]
fn lookup_finds_the_first_matching_node() {
    let a = SharedDataNode { key_edi: 2, key_esi: 1, entity: 0xAAAA };
    let b = SharedDataNode { key_edi: 2, key_esi: 1, entity: 0xBBBB };
    let c = SharedDataNode { key_edi: 19, key_esi: 0, entity: 0xCCCC };
    let t = table_with(&[c, a, b]);
    assert_eq!(t.lookup(1, 2), 0xAAAA);
    assert_eq!(t.lookup(0, 19), 0xCCCC);
    assert_eq!(t.lookup(3, 3), 0);
    assert_eq!(t.nodes(), vec![c, a, b]);
}

#[test]
fn weapon_codes_round_trip() {
    assert_eq!(WEAPON_COUNT, 71);
    assert_eq!(Weapon::try_from(0), Ok(Weapon::NoWeapon));
    assert_eq!(Weapon::try_from(1), Ok(Weapon::Bazooka));
    assert_eq!(Weapon::try_from(57), Ok(Weapon::SkipGo));
    assert_eq!(Weapon::try_from(70), Ok(Weapon::CrateShower));
    assert_eq!(Weapon::try_from(71), Err(71));
    for v in 0..WEAPON_COUNT {
        assert_eq!(Weapon::try_from(v).unwrap().code(), v);
    }
}

#[test]
fn fire_discriminants() {
    assert_eq!(FireType::try_from(1), Ok(FireType::Projectile));
    assert_eq!(FireType::try_from(4), Ok(FireType::Special));
    assert_eq!(FireType::try_from(0), Err(0));
    assert_eq!(FireMethod::try_from(4), Ok(FireMethod::CreateArrow));
    assert_eq!(FireMethod::try_from(5), Err(5));
    assert_eq!(SpecialFireSubtype::try_from(6), Ok(SpecialFireSubtype::Unknown6));
    assert_eq!(SpecialFireSubtype::try_from(7), Err(7));
    assert_eq!(SpecialFireSubtype::try_from(19), Ok(SpecialFireSubtype::SkipGo));
    assert_eq!(SpecialFireSubtype::SkipGo.code(), 19);
    assert_eq!(FireType::Strike.code(), 3);
    assert_eq!(FireMethod::ProjectileFire.code(), 2);
}

#[test]
fn worm_state_codes() {
    assert_eq!(WormState::Idle.code(), 0x65);
    assert_eq!(WormState::Active.code(), 0x67);
    assert_eq!(WormState::Dead.code(), 0x86);
    assert_eq!(WormState::Unknown_0x8B.code(), 0x8B);
}

#[test]
fn iteration_visits_every_node_in_bucket_order() {
    let a = SharedDataNode { key_edi: 2, key_esi: 1, entity: 1 };
    let b = SharedDataNode { key_edi: 0, key_esi: 0, entity: 2 };
    let c = SharedDataNode { key_edi: 255, key_esi: 0, entity: 3 };
    let t = table_with(&[c, a, b]);
    let mut it = t.iter();
    let mut seen = Vec::new();
    while let Some(n) = it.next() {
        seen.push(n);
    }
    assert_eq!(seen, vec![b, a, c]);
    assert_eq!(seen, t.nodes());
    assert_eq!(it.next(), None);
}

#[test]
fn breadth_first_task_walk() {
    let tree = TaskTree {
        nodes: vec![
            TaskNode { addr: 10, parent: 0, children: vec![20, 0, 30] },
            TaskNode { addr: 20, parent: 10, children: vec![40] },
            TaskNode { addr: 30, parent: 10, children: vec![] },
        ],
    };
    assert_eq!(tree.children_of(10), vec![20, 30]);
    assert_eq!(tree.children_of(99), Vec::<u32>::new());
    let mut it = CTaskBfsIter::new(10);
    let mut order = Vec::new();
    while let Some(t) = it.next(&tree) {
        order.push(t);
    }
    assert_eq!(order, vec![10, 20, 30, 40]);
}

#[test]
fn broadcast_visits_non_empty_slots_below_watermark() {
    let slots = [0u32, 5, 0, 7, 9];
    assert_eq!(openwa_core::task::broadcast_next(&slots, 4, 0), Some((5, 2)));
    assert_eq!(openwa_core::task::broadcast_next(&slots, 4, 2), Some((7, 4)));
    assert_eq!(openwa_core::task::broadcast_next(&slots, 4, 4), None);
    assert_eq!(openwa_core::task::broadcast_targets(&slots, 4), vec![5, 7]);
    assert_eq!(openwa_core::task::broadcast_targets(&slots, 5), vec![5, 7, 9]);
    assert!(openwa_core::task::broadcast_targets(&slots, 1).is_empty());
}

#[test]
fn bit_grid_rows_are_padded_to_four_bytes() {
    let g = openwa_core::bit_grid::bit_grid_init(1, 10, 3).unwrap();
    assert_eq!(g.row_stride, 4);
    assert_eq!(g.data, vec![0u8; 12]);
    assert_eq!((g.width, g.height, g.width_dup, g.height_dup), (10, 3, 10, 3));
    let g = openwa_core::bit_grid::bit_grid_init(1, 33, 2).unwrap();
    assert_eq!(g.row_stride, 8);
    assert_eq!(g.data.len(), 16);
    let g = openwa_core::bit_grid::task_state_machine_init(8, 3, 5).unwrap();
    assert_eq!(g.row_stride, 4);
    assert_eq!(g.cells_per_unit, 8);
}

#[test]
fn bit_grid_refuses_sizes_that_wrap() {
    assert!(openwa_core::bit_grid::bit_grid_init(1, 10, 0x3FFF_FFF9).is_none());
}

fn sample_tree() -> TaskTree {
    TaskTree {
        nodes: vec![
            TaskNode { addr: 10, parent: 0, children: vec![20, 0, 30] },
            TaskNode { addr: 20, parent: 10, children: vec![40] },
            TaskNode { addr: 30, parent: 10, children: vec![] },
            TaskNode { addr: 40, parent: 20, children: vec![] },
        ],
    }
}

#[test]
fn depth_first_walk_visits_each_task_once() {
    let tree = sample_tree();
    assert_eq!(openwa_core::task::collect_task_tree(&tree, 10), vec![10, 30, 20, 40]);
    assert_eq!(openwa_core::task::collect_task_tree(&tree, 20), vec![20, 40]);
    assert!(openwa_core::task::collect_task_tree(&tree, 0).is_empty());
    let cyclic = TaskTree {
        nodes: vec![
            TaskNode { addr: 1, parent: 2, children: vec![2, 2] },
            TaskNode { addr: 2, parent: 1, children: vec![1] },
        ],
    };
    assert_eq!(openwa_core::task::collect_task_tree(&cyclic, 1), vec![1, 2]);
}

#[test]
fn root_is_found_up_the_parent_chain() {
    let tree = sample_tree();
    assert_eq!(openwa_core::task::find_root_task(&tree, 40), Some(10));
    assert_eq!(openwa_core::task::find_root_task(&tree, 10), Some(10));
    assert_eq!(openwa_core::task::find_root_task(&tree, 0), None);
    let cyclic = TaskTree {
        nodes: vec![
            TaskNode { addr: 1, parent: 2, children: vec![] },
            TaskNode { addr: 2, parent: 1, children: vec![] },
        ],
    };
    assert_eq!(openwa_core::task::find_root_task(&cyclic, 1), None);
    assert_eq!(tree.parent_of(99), 0);
}

#[test]
fn live_entities_are_walked_from_the_root() {
    let tree = sample_tree();
    assert_eq!(openwa_core::task::collect_live_entities(&tree, 40), vec![10, 30, 20, 40]);
    assert!(openwa_core::task::collect_live_entities(&tree, 0).is_empty());
}
