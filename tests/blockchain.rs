use blockchain_sim::{Block, BlockId, Blockchain, NodeId, ProtocolType};

fn extend(bc: &mut Blockchain, prev: usize, minter: usize, time: u64) -> BlockId {
    let parent = *bc.get_block(BlockId::new(prev)).unwrap();
    let id = bc.next_block_id();
    bc.add_block(Block::new(
        parent.height() + 1,
        Some(BlockId::new(prev)),
        NodeId::new(minter),
        time,
        0,
        id,
        parent.difficulty(),
        0,
    ))
}

#[test]
fn genesis_only_main_chain() {
    let bc = Blockchain::new(&ProtocolType::Bitcoin);
    assert_eq!(bc.len(), 1);
    assert_eq!(bc.max_height(), 0);
    assert_eq!(bc.get_main_chain(), vec![BlockId::new(0)]);
    let g = bc.get_block(BlockId::new(0)).unwrap();
    assert_eq!(g.height(), 0);
    assert_eq!(g.prev_block_id(), None);
    assert_eq!(g.minter(), NodeId::dummy());
    assert_eq!(g.difficulty(), 1u64 << 32);
}

#[test]
fn ids_are_dense_and_parents_one_lower() {
    let mut bc = Blockchain::new(&ProtocolType::Ethereum);
    let a = extend(&mut bc, 0, 0, 10);
    let b = extend(&mut bc, a.0, 1, 20);
    assert_eq!(a, BlockId::new(1));
    assert_eq!(b, BlockId::new(2));
    assert_eq!(bc.next_block_id(), BlockId::new(3));
    for (i, blk) in bc.blocks().iter().enumerate() {
        assert_eq!(blk.id(), BlockId::new(i));
        if let Some(p) = blk.prev_block_id() {
            assert_eq!(bc.get_block(p).unwrap().height() + 1, blk.height());
        }
    }
    assert!(bc.get_block(BlockId::new(3)).is_none());
    assert_eq!(bc.last_block().unwrap().id(), b);
}

#[test]
fn main_chain_follows_first_highest_tip() {
    let mut bc = Blockchain::new(&ProtocolType::Bitcoin);
    let a1 = extend(&mut bc, 0, 0, 10);
    let b1 = extend(&mut bc, 0, 1, 11);
    let a2 = extend(&mut bc, a1.0, 0, 20);
    let b2 = extend(&mut bc, b1.0, 1, 21);
    let _ = b2;
    assert_eq!(bc.max_height(), 2);
    let chain = bc.get_main_chain();
    assert_eq!(chain, vec![BlockId::new(0), a1, a2]);
    let b3 = extend(&mut bc, b2.0, 1, 30);
    assert_eq!(bc.get_main_chain(), vec![BlockId::new(0), b1, b2, b3]);
    assert_eq!(bc.get_main_chain().len() as u64, bc.max_height() + 1);
}

#[test]
fn candidates_stay_off_the_main_chain() {
    let mut bc = Blockchain::new(&ProtocolType::Bitcoin);
    let a = extend(&mut bc, 0, 0, 10);
    let id = bc.next_block_id();
    let c = bc.add_candidate(Block::new(2, Some(a), NodeId::new(1), 50, 0, id, 1, 40));
    assert!(!bc.is_mined(c));
    assert!(bc.is_mined(a));
    assert_eq!(bc.max_height(), 1);
    assert_eq!(bc.get_main_chain(), vec![BlockId::new(0), a]);
    bc.mark_mined(c);
    assert_eq!(bc.max_height(), 2);
    assert_eq!(bc.get_main_chain(), vec![BlockId::new(0), a, c]);
}
