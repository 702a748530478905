use bc_bft::bc::block::{BCBlock, BlockHash, BlockTrait};
use bc_bft::bc::context::{BCContext, Spentness};
use bc_bft::bc::traits::TransactionTrait;
use bc_bft::bc::transaction::{BCTransaction, Note, TXO};

// A transaction with nothing in it, for outputs to belong to.
fn dummy_bc_transaction() -> BCTransaction {
    BCTransaction {
        transparent_inputs: vec![],
        transparent_outputs: vec![],
        shielded_inputs: vec![],
        shielded_outputs: vec![],
        fee: 0,
        anchor: None,
        issuance: 0,
    }
}

// An output with the given value.
fn dummy_txo(value: i32) -> TXO {
    TXO { tx: dummy_bc_transaction(), index: 0, value }
}

fn coinbase(value: i32, fee: i32, issuance: i32) -> BCTransaction {
    BCTransaction {
        transparent_inputs: vec![],
        transparent_outputs: vec![dummy_txo(value)],
        shielded_inputs: vec![],
        shielded_outputs: vec![],
        fee,
        anchor: None,
        issuance,
    }
}

#[test]
fn test_context_initialization() {
    let ctx = BCContext::new();
    assert!(ctx.transactions.is_empty());
    assert!(ctx.utxo_set.is_empty());
    assert!(ctx.notes.is_empty());
    assert_eq!(ctx.total_issuance, 0);
}

#[test]
fn test_add_valid_transaction() {
    let mut ctx = BCContext::new();
    let tx = BCTransaction {
        transparent_inputs: Vec::new(),
        transparent_outputs: Vec::new(),
        shielded_inputs: Vec::new(),
        shielded_outputs: Vec::new(),
        fee: 0,
        anchor: None,
        issuance: 0,
    };
    assert!(ctx.add_transaction(tx));
    assert_eq!(ctx.transactions.len(), 1);
}

#[test]
fn test_add_invalid_transaction() {
    let mut ctx = BCContext::new();

    let dummy_tx = BCTransaction {
        transparent_inputs: Vec::new(),
        transparent_outputs: Vec::new(),
        shielded_inputs: Vec::new(),
        shielded_outputs: Vec::new(),
        fee: 0,
        anchor: None,
        issuance: 0,
    };

    let dummy_txo = TXO { tx: dummy_tx, index: 0, value: 100 };

    // The input makes sure that this is no coinbase.
    let tx = BCTransaction {
        transparent_inputs: vec![dummy_txo],
        transparent_outputs: Vec::new(),
        shielded_inputs: Vec::new(),
        shielded_outputs: Vec::new(),
        fee: -1,
        anchor: None,
        issuance: 0,
    };

    println!("Attempting to add invalid transaction with fee: {}", tx.fee);
    let result = ctx.add_transaction(tx);
    println!("Result of adding invalid transaction: {}", result);

    assert!(!result);
    assert!(ctx.transactions.is_empty());
}

#[test]
fn test_basic() {
    let mut ctx = BCContext::new();

    let coinbase_tx0 = BCTransaction {
        transparent_inputs: vec![],
        transparent_outputs: vec![dummy_txo(10)],
        shielded_inputs: vec![],
        shielded_outputs: vec![],
        fee: 0,
        anchor: None,
        issuance: 10,
    };

    assert!(ctx.add_transaction(coinbase_tx0.clone()));
    assert_eq!(ctx.total_issuance, 10);

    let genesis = BCBlock {
        parent: None,
        score: 1,
        transactions: vec![coinbase_tx0.clone()],
        hash: BlockHash::new(),
    };

    assert_eq!(genesis.score, 1);
    assert_eq!(ctx.total_issuance, 10);

    let coinbase_tx1 = BCTransaction {
        transparent_inputs: vec![],
        transparent_outputs: vec![dummy_txo(6)],
        shielded_inputs: vec![],
        shielded_outputs: vec![],
        fee: -1,
        anchor: None,
        issuance: 5,
    };

    let spend_input = dummy_txo(10);
    let spend_tx = BCTransaction {
        transparent_inputs: vec![spend_input],
        transparent_outputs: vec![dummy_txo(9)],
        shielded_inputs: vec![],
        shielded_outputs: vec![],
        fee: 1,
        anchor: None,
        issuance: 0,
    };

    assert!(ctx.add_transaction(coinbase_tx1.clone()));
    assert!(ctx.add_transaction(spend_tx.clone()));

    let block1 = BCBlock {
        parent: Some(genesis.hash),
        score: 2,
        transactions: vec![coinbase_tx1.clone(), spend_tx.clone()],
        hash: BlockHash::new(),
    };

    assert_eq!(block1.score, 2);
    assert_eq!(ctx.total_issuance, 15);

    let coinbase_tx2 = BCTransaction {
        transparent_inputs: vec![],
        transparent_outputs: vec![dummy_txo(6)],
        shielded_inputs: vec![],
        shielded_outputs: vec![],
        fee: -1,
        anchor: None,
        issuance: 5,
    };

    let coinbase_tx1_output = dummy_txo(6);
    let spend_tx_output = dummy_txo(9);
    let shielding_tx = BCTransaction {
        transparent_inputs: vec![coinbase_tx1_output, spend_tx_output],
        transparent_outputs: vec![],
        shielded_inputs: vec![],
        shielded_outputs: vec![Note { value: 8 }, Note { value: 6 }],
        fee: 1,
        anchor: None,
        issuance: 0,
    };

    assert!(ctx.add_transaction(coinbase_tx2.clone()));
    assert!(ctx.add_transaction(shielding_tx.clone()));

    let block2 = BCBlock {
        parent: Some(block1.hash),
        score: 4,
        transactions: vec![coinbase_tx2.clone(), shielding_tx.clone()],
        hash: BlockHash::new(),
    };

    let block2_anchor = ctx.clone();
    assert_eq!(block2.score, 4);
    assert_eq!(ctx.total_issuance, 20);

    let coinbase_tx3 = BCTransaction {
        transparent_inputs: vec![],
        transparent_outputs: vec![dummy_txo(7)],
        shielded_inputs: vec![],
        shielded_outputs: vec![],
        fee: -2,
        anchor: None,
        issuance: 5,
    };

    let shielded_tx = BCTransaction {
        transparent_inputs: vec![],
        transparent_outputs: vec![],
        shielded_inputs: vec![],
        shielded_outputs: vec![Note { value: 7 }],
        fee: 1,
        anchor: Some(block2_anchor.clone()),
        issuance: 0,
    };

    let deshielding_tx = BCTransaction {
        transparent_inputs: vec![],
        transparent_outputs: vec![dummy_txo(5)],
        shielded_inputs: vec![],
        shielded_outputs: vec![],
        fee: 1,
        anchor: Some(block2_anchor.clone()),
        issuance: 0,
    };

    assert!(ctx.add_transaction(coinbase_tx3.clone()));
    assert!(ctx.add_transaction(shielded_tx.clone()));
    assert!(ctx.add_transaction(deshielding_tx.clone()));

    let block3 = BCBlock {
        parent: Some(block2.hash),
        score: 7,
        transactions: vec![coinbase_tx3.clone(), shielded_tx.clone(), deshielding_tx.clone()],
        hash: BlockHash::new(),
    };

    assert_eq!(block3.score, 7);
    assert_eq!(ctx.total_issuance, 25);
}

#[test]
fn ledger_basics() {
    let mut ctx = BCContext::new();
    assert!(ctx.add_transaction(coinbase(10, 0, 10)));
    assert_eq!(ctx.total_issuance, 10);
    assert_eq!(ctx.utxo_set.len(), 1);

    let before = ctx.clone();
    let rejected = BCTransaction {
        transparent_inputs: vec![dummy_txo(77)],
        transparent_outputs: vec![],
        shielded_inputs: vec![],
        shielded_outputs: vec![],
        fee: -1,
        anchor: None,
        issuance: 0,
    };
    assert!(!ctx.add_transaction(rejected));
    assert_eq!(ctx, before);
    assert_eq!(ctx.total_issuance, 10);
    assert_eq!(ctx.transactions.len(), 1);
}

#[test]
fn shielding_and_deshielding() {
    let mut ctx = BCContext::new();
    assert!(ctx.add_transaction(coinbase(10, 0, 10)));
    assert!(ctx.add_transaction(coinbase(6, -1, 5)));
    // A transparent spend that produces an output of 9.
    assert!(ctx.add_transaction(BCTransaction {
        transparent_inputs: vec![dummy_txo(10)],
        transparent_outputs: vec![dummy_txo(9)],
        shielded_inputs: vec![],
        shielded_outputs: vec![],
        fee: 1,
        anchor: None,
        issuance: 0,
    }));
    assert!(ctx.add_transaction(coinbase(4, -1, 5)));
    // Shielding: two outputs in, the notes 8 and 6 out.
    assert!(ctx.add_transaction(BCTransaction {
        transparent_inputs: vec![dummy_txo(6), dummy_txo(9)],
        transparent_outputs: vec![],
        shielded_inputs: vec![],
        shielded_outputs: vec![Note { value: 8 }, Note { value: 6 }],
        fee: 1,
        anchor: None,
        issuance: 0,
    }));
    assert_eq!(ctx.utxo_set.len(), 1);
    assert!(ctx.can_spend(&[Note { value: 8 }, Note { value: 6 }]));

    // A shielded transaction, anchored at a snapshot: note 8 in, note 7 out.
    let anchor = ctx.copy();
    assert!(ctx.add_transaction(BCTransaction {
        transparent_inputs: vec![],
        transparent_outputs: vec![],
        shielded_inputs: vec![Note { value: 8 }],
        shielded_outputs: vec![Note { value: 7 }],
        fee: 1,
        anchor: Some(anchor),
        issuance: 0,
    }));
    // Deshielding: an output of 5.
    assert!(ctx.add_transaction(BCTransaction {
        transparent_inputs: vec![],
        transparent_outputs: vec![dummy_txo(5)],
        shielded_inputs: vec![],
        shielded_outputs: vec![],
        fee: 1,
        anchor: None,
        issuance: 0,
    }));

    assert_eq!(ctx.total_issuance, 20);
    assert!(ctx.is_spent(&Note { value: 8 }));
    assert!(!ctx.is_spent(&Note { value: 6 }));
    assert!(!ctx.is_spent(&Note { value: 7 }));
    assert!(ctx.can_spend(&[Note { value: 6 }, Note { value: 7 }]));
    assert!(!ctx.can_spend(&[Note { value: 8 }]));
    assert_eq!(ctx.notes.get(&8), Some(&Spentness::Spent));
    assert_eq!(ctx.notes.get(&6), Some(&Spentness::Unspent));
    assert_eq!(ctx.notes.get(&7), Some(&Spentness::Unspent));
    assert_eq!(ctx.transactions.len(), 7);
}

fn context_with_note(value: i32) -> BCContext {
    let mut ctx = BCContext::new();
    assert!(ctx.add_transaction(BCTransaction {
        transparent_inputs: vec![],
        transparent_outputs: vec![],
        shielded_inputs: vec![],
        shielded_outputs: vec![Note { value }],
        fee: 0,
        anchor: None,
        issuance: 0,
    }));
    ctx
}

fn spend_note(value: i32, anchor: Option<BCContext>) -> BCTransaction {
    BCTransaction {
        transparent_inputs: vec![],
        transparent_outputs: vec![],
        shielded_inputs: vec![Note { value }],
        shielded_outputs: vec![],
        fee: 0,
        anchor,
        issuance: 0,
    }
}

#[test]
fn anchored_spend_without_anchor_fails() {
    let mut ctx = context_with_note(3);
    let before = ctx.clone();
    assert!(ctx.can_spend(&[Note { value: 3 }]));
    assert!(!ctx.add_transaction(spend_note(3, None)));
    assert_eq!(ctx, before);
    // With an anchor that holds the note unspent, the same spend applies.
    assert!(ctx.add_transaction(spend_note(3, Some(before))));
    assert!(ctx.is_spent(&Note { value: 3 }));
}

#[test]
fn anchor_must_hold_the_note_unspent() {
    let mut ctx = context_with_note(3);
    // An anchor that has never seen the note.
    assert!(!ctx.add_transaction(spend_note(3, Some(BCContext::new()))));
    // An anchor in which the note is spent already.
    let mut spent = ctx.copy();
    let unspent = ctx.copy();
    assert!(spent.add_transaction(spend_note(3, Some(unspent))));
    assert!(!ctx.add_transaction(spend_note(3, Some(spent))));
    assert!(!ctx.is_spent(&Note { value: 3 }));
}

#[test]
fn spent_note_cannot_be_spent_again() {
    let mut ctx = context_with_note(3);
    let anchor = ctx.copy();
    assert!(ctx.add_transaction(spend_note(3, Some(anchor.clone()))));
    let before = ctx.clone();
    assert!(!ctx.add_transaction(spend_note(3, Some(anchor))));
    assert_eq!(ctx, before);
}

#[test]
fn unknown_note_cannot_be_spent() {
    let mut ctx = BCContext::new();
    assert!(!ctx.is_spent(&Note { value: 1 }));
    assert!(!ctx.can_spend(&[Note { value: 1 }]));
    assert!(ctx.can_spend(&[]));
    assert!(!ctx.add_transaction(spend_note(1, Some(BCContext::new()))));
}

#[test]
fn minted_note_wins_over_spent_note() {
    let mut ctx = context_with_note(3);
    let anchor = ctx.copy();
    // The note is both spent and minted: it ends up unspent.
    assert!(ctx.add_transaction(BCTransaction {
        transparent_inputs: vec![],
        transparent_outputs: vec![],
        shielded_inputs: vec![Note { value: 3 }],
        shielded_outputs: vec![Note { value: 3 }],
        fee: 0,
        anchor: Some(anchor),
        issuance: 0,
    }));
    assert!(!ctx.is_spent(&Note { value: 3 }));
    assert!(ctx.can_spend(&[Note { value: 3 }]));
}

#[test]
fn minting_a_spent_note_makes_it_spendable() {
    let mut ctx = context_with_note(3);
    let anchor = ctx.copy();
    assert!(ctx.add_transaction(spend_note(3, Some(anchor))));
    assert!(ctx.is_spent(&Note { value: 3 }));
    assert!(ctx.add_transaction(BCTransaction {
        transparent_inputs: vec![],
        transparent_outputs: vec![],
        shielded_inputs: vec![],
        shielded_outputs: vec![Note { value: 3 }],
        fee: 0,
        anchor: None,
        issuance: 0,
    }));
    assert!(!ctx.is_spent(&Note { value: 3 }));
    assert!(ctx.can_spend(&[Note { value: 3 }]));
    assert_eq!(ctx.notes.len(), 1);
}

#[test]
fn non_coinbase_with_issuance_is_rejected() {
    let mut ctx = BCContext::new();
    assert!(ctx.add_transaction(coinbase(10, 0, 10)));
    let before = ctx.clone();
    assert!(!ctx.add_transaction(BCTransaction {
        transparent_inputs: vec![dummy_txo(10)],
        transparent_outputs: vec![],
        shielded_inputs: vec![],
        shielded_outputs: vec![],
        fee: 0,
        anchor: None,
        issuance: 1,
    }));
    assert_eq!(ctx, before);
    // The same without issuance applies, and a fee of zero is no negative fee.
    assert!(ctx.add_transaction(BCTransaction {
        transparent_inputs: vec![dummy_txo(10)],
        transparent_outputs: vec![],
        shielded_inputs: vec![],
        shielded_outputs: vec![],
        fee: 0,
        anchor: None,
        issuance: 0,
    }));
    assert!(ctx.utxo_set.is_empty());
}

#[test]
fn coinbase_may_carry_any_fee_and_issuance() {
    let mut ctx = BCContext::new();
    assert!(ctx.add_transaction(coinbase(1, -5, -3)));
    assert_eq!(ctx.total_issuance, -3);
    assert!(ctx.add_transaction(coinbase(2, 7, 4)));
    assert_eq!(ctx.total_issuance, 1);
}

#[test]
fn utxo_conservation() {
    let mut ctx = BCContext::new();
    assert!(ctx.add_transaction(coinbase(10, 0, 10)));
    assert!(ctx.add_transaction(coinbase(6, 0, 6)));
    assert_eq!(ctx.utxo_set.len(), 2);
    // Two inputs, three outputs, all distinct: 2 - 2 + 3.
    assert!(ctx.add_transaction(BCTransaction {
        transparent_inputs: vec![dummy_txo(10), dummy_txo(6)],
        transparent_outputs: vec![dummy_txo(1), dummy_txo(2), dummy_txo(3)],
        shielded_inputs: vec![],
        shielded_outputs: vec![],
        fee: 0,
        anchor: None,
        issuance: 0,
    }));
    assert_eq!(ctx.utxo_set.len(), 3);
    assert!(ctx.utxo_set.contains(&dummy_txo(1)));
    assert!(ctx.utxo_set.contains(&dummy_txo(2)));
    assert!(ctx.utxo_set.contains(&dummy_txo(3)));
    assert!(!ctx.utxo_set.contains(&dummy_txo(10)));
}

#[test]
fn output_already_in_the_set_is_not_added_twice() {
    let mut ctx = BCContext::new();
    assert!(ctx.add_transaction(coinbase(10, 0, 10)));
    assert!(ctx.add_transaction(coinbase(10, 0, 10)));
    assert_eq!(ctx.utxo_set.len(), 1);
    assert_eq!(ctx.total_issuance, 20);
}

#[test]
fn output_is_told_apart_by_transaction_index_and_value() {
    let mut ctx = BCContext::new();
    assert!(ctx.add_transaction(coinbase(10, 0, 10)));
    let mut other_index = dummy_txo(10);
    other_index.index = 1;
    let mut other_tx = dummy_txo(10);
    other_tx.tx.fee = 1;
    for unknown in [other_index, other_tx, dummy_txo(11)] {
        assert!(!ctx.add_transaction(BCTransaction {
            transparent_inputs: vec![unknown],
            transparent_outputs: vec![],
            shielded_inputs: vec![],
            shielded_outputs: vec![],
            fee: 0,
            anchor: None,
            issuance: 0,
        }));
    }
    assert_eq!(ctx.utxo_set.len(), 1);
}

#[test]
fn snapshot_is_independent() {
    let mut ctx = BCContext::new();
    assert!(ctx.add_transaction(coinbase(10, 0, 10)));
    let snapshot = ctx.copy();
    assert_eq!(snapshot, ctx);
    assert!(ctx.add_transaction(coinbase(6, 0, 5)));
    assert_eq!(snapshot.total_issuance, 10);
    assert_eq!(snapshot.transactions.len(), 1);
    assert_eq!(snapshot.utxo_set.len(), 1);
    assert_ne!(snapshot, ctx);
}

#[test]
fn structural_equality_of_transactions() {
    let a = coinbase(10, 0, 10);
    assert!(a.same_as(&a.clone()));
    assert!(!a.same_as(&coinbase(10, 0, 11)));
    assert!(!a.same_as(&coinbase(11, 0, 10)));
    let mut anchored = a.clone();
    anchored.anchor = Some(BCContext::new());
    assert!(!a.same_as(&anchored));
    assert!(anchored.same_as(&anchored.clone()));
    let mut other_anchor = anchored.clone();
    other_anchor.anchor = Some(context_with_note(1));
    assert!(!anchored.same_as(&other_anchor));
    assert!(dummy_txo(1).same_as(&dummy_txo(1)));
    assert!(!dummy_txo(1).same_as(&dummy_txo(2)));
    assert!(context_with_note(1).same_as(&context_with_note(1)));
    assert!(!context_with_note(1).same_as(&context_with_note(2)));
}

#[test]
fn coinbase_is_told_by_its_inputs() {
    assert!(coinbase(1, 0, 0).is_coinbase());
    assert!(!spend_note(1, None).is_coinbase());
    let ctx = BCContext::new();
    assert!(coinbase(1, -1, 9).is_valid(&ctx));
    assert!(!spend_note(1, None).is_valid(&ctx));
}

#[test]
fn transaction_getters() {
    let mut tx = coinbase(4, 2, 3);
    tx.shielded_outputs.push(Note { value: 9 });
    assert_eq!(tx.transparent_inputs().len(), 0);
    assert_eq!(tx.transparent_outputs(), &[dummy_txo(4)]);
    assert_eq!(tx.shielded_inputs().len(), 0);
    assert_eq!(tx.shielded_outputs(), &[Note { value: 9 }]);
    assert_eq!(TransactionTrait::fee(&tx), 2);
    assert_eq!(TransactionTrait::issuance(&tx), 3);
    assert!(TransactionTrait::anchor(&tx).is_none());
}

#[test]
fn block_getters() {
    let parent = BlockHash::new();
    let block = BCBlock {
        parent: Some(parent),
        score: 3,
        transactions: vec![coinbase(1, 0, 1)],
        hash: BlockHash::default(),
    };
    assert!(BlockTrait::parent(&block).is_some());
    assert_eq!(BlockTrait::score(&block), 3);
    assert_eq!(BlockTrait::transactions(&block).len(), 1);
    bc_bft::bc::init_logging();
}

#[test]
fn block_hash_keeps_its_nonce() {
    assert_eq!(BlockHash::from_nonce(17).nonce(), 17);
    let hash = BlockHash::new();
    assert_eq!(BlockHash::from_nonce(hash.nonce()).nonce(), hash.nonce());
}

#[test]
fn utxo_set_has_no_order() {
    let mut forth = BCContext::new();
    assert!(forth.add_transaction(coinbase(1, 0, 3)));
    let mut back = forth.clone();
    back.utxo_set = vec![dummy_txo(2), dummy_txo(1)];
    forth.utxo_set = vec![dummy_txo(1), dummy_txo(2)];
    assert!(forth.same_as(&back));
    assert_eq!(forth, back);
    back.utxo_set = vec![dummy_txo(2), dummy_txo(3)];
    assert!(!forth.same_as(&back));
    back.utxo_set = vec![dummy_txo(2)];
    assert!(!forth.same_as(&back));
    assert!(!back.same_as(&forth));
}

#[test]
fn input_is_found_whatever_the_order_in_its_anchor() {
    let mut forth = BCContext::new();
    forth.utxo_set = vec![dummy_txo(1), dummy_txo(2)];
    let mut back = BCContext::new();
    back.utxo_set = vec![dummy_txo(2), dummy_txo(1)];

    let mut held = dummy_txo(5);
    held.tx.anchor = Some(forth);
    let mut spent = dummy_txo(5);
    spent.tx.anchor = Some(back);
    assert!(held.same_as(&spent));

    let mut ctx = BCContext::new();
    ctx.utxo_set = vec![held];
    let tx = BCTransaction {
        transparent_inputs: vec![spent],
        transparent_outputs: vec![],
        shielded_inputs: vec![],
        shielded_outputs: vec![],
        fee: 0,
        anchor: None,
        issuance: 0,
    };
    assert!(tx.is_valid(&ctx));
    assert!(ctx.add_transaction(tx));
    assert!(ctx.utxo_set.is_empty());
}
