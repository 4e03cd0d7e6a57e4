use std::collections::HashMap;

use vstd::prelude::*;

use crate::types::{BlockHash, Field, Header, Output, Signature};

verus! {

broadcast use vstd::std_specs::hash::group_hash_axioms;

/// What a transition is, mathematically: its id and its outputs in order.
pub type TransitionModel = (Field, Seq<Output>);

/// What a transaction is, mathematically: its id and its transitions in order.
pub type TransactionModel = (Field, Seq<TransitionModel>);

/// What a block is, mathematically: previous hash, header, transactions, signature.
pub type BlockModel = (BlockHash, Header, Seq<TransactionModel>, Signature);

/// An atomic unit of execution and the output records it produced.
#[derive(Clone, Debug, PartialEq, Eq)]
pub struct Transition {
    pub id: Field,
    pub outputs: Vec<Output>,
}

impl View for Transition {
    type V = TransitionModel;

    open spec fn view(&self) -> TransitionModel {
        (self.id, self.outputs@)
    }
}

impl Transition {
    /// An owned copy of the transition.
    pub fn duplicate(&self) -> (r: Transition)
        ensures
            r@ == self@,
    {
        let mut outputs: Vec<Output> = Vec::new();
        let mut i: usize = 0;
        while i < self.outputs.len()
            invariant
                i <= self.outputs@.len(),
                outputs@ == self.outputs@.subrange(0, i as int),
            decreases self.outputs@.len() - i,
        {
            outputs.push(self.outputs[i]);
            i = i + 1;
            assert(outputs@ =~= self.outputs@.subrange(0, i as int));
        }
        assert(outputs@ =~= self.outputs@);
        Transition { id: self.id, outputs }
    }
}

/// A transaction: an ordered list of transitions.
#[derive(Clone, Debug, PartialEq, Eq)]
pub struct Transaction {
    pub id: Field,
    pub transitions: Vec<Transition>,
}

/// The models of a sequence of transitions.
pub open spec fn transitions_model(s: Seq<Transition>) -> Seq<TransitionModel> {
    s.map_values(|t: Transition| t@)
}

impl View for Transaction {
    type V = TransactionModel;

    open spec fn view(&self) -> TransactionModel {
        (self.id, transitions_model(self.transitions@))
    }
}

impl Transaction {
    /// An owned copy of the transaction.
    pub fn duplicate(&self) -> (r: Transaction)
        ensures
            r@ == self@,
    {
        let mut transitions: Vec<Transition> = Vec::new();
        let mut i: usize = 0;
        while i < self.transitions.len()
            invariant
                i <= self.transitions@.len(),
                transitions@.len() == i,
                forall|j: int| 0 <= j < i ==> #[trigger] transitions@[j]@ == self.transitions@[j]@,
            decreases self.transitions@.len() - i,
        {
            let t = self.transitions[i].duplicate();
            transitions.push(t);
            i = i + 1;
        }
        assert(transitions_model(transitions@) =~= transitions_model(self.transitions@));
        Transaction { id: self.id, transitions }
    }
}

/// The transactions of a block.
#[derive(Clone, Debug, PartialEq, Eq)]
pub struct Transactions {
    pub transactions: Vec<Transaction>,
}

/// The models of a sequence of transactions.
pub open spec fn transactions_model(s: Seq<Transaction>) -> Seq<TransactionModel> {
    s.map_values(|t: Transaction| t@)
}

impl View for Transactions {
    type V = Seq<TransactionModel>;

    open spec fn view(&self) -> Seq<TransactionModel> {
        transactions_model(self.transactions@)
    }
}

impl Transactions {
    /// An owned copy of the transactions.
    pub fn duplicate(&self) -> (r: Transactions)
        ensures
            r@ == self@,
    {
        let mut transactions: Vec<Transaction> = Vec::new();
        let mut i: usize = 0;
        while i < self.transactions.len()
            invariant
                i <= self.transactions@.len(),
                transactions@.len() == i,
                forall|j: int|
                    0 <= j < i ==> #[trigger] transactions@[j]@ == self.transactions@[j]@,
            decreases self.transactions@.len() - i,
        {
            let t = self.transactions[i].duplicate();
            transactions.push(t);
            i = i + 1;
        }
        assert(transactions_model(transactions@) =~= transactions_model(self.transactions@));
        Transactions { transactions }
    }
}

/// A block, assembled from the four stores at one height.
#[derive(Clone, Debug, PartialEq, Eq)]
pub struct Block {
    pub previous_hash: BlockHash,
    pub header: Header,
    pub transactions: Transactions,
    pub signature: Signature,
}

impl View for Block {
    type V = BlockModel;

    open spec fn view(&self) -> BlockModel {
        (self.previous_hash, self.header, self.transactions@, self.signature)
    }
}

/// Why a read from the ledger failed.
#[derive(Clone, Copy, Debug, PartialEq, Eq, Structural)]
pub enum LedgerError {
    /// The previous-hash store has no entry at the height.
    MissingPreviousHash { height: u32 },
    /// The header store has no entry at the height.
    MissingHeader { height: u32 },
    /// The transactions store has no entry at the height.
    MissingTransactions { height: u32 },
    /// The signature store has no entry at the height.
    MissingSignature { height: u32 },
    /// The hash of a block below the tip is not recorded under its successor's height.
    MissingHash { height: u32 },
    /// The height lies above the tip of the chain.
    HeightAboveTip { height: u32, current_height: u32 },
}

/// A committed ledger: four stores keyed by block height, the cached tip, and
/// the spend index (the serial numbers and tags recorded as spent).
///
/// The previous-hash store holds the hash of block `h` under key `h + 1`; the hash
/// of the tip is only in `current_hash`.
pub struct Ledger {
    pub previous_hashes: HashMap<u32, BlockHash>,
    pub headers: HashMap<u32, Header>,
    pub transactions: HashMap<u32, Transactions>,
    pub signatures: HashMap<u32, Signature>,
    pub current_height: u32,
    pub current_hash: BlockHash,
    pub serial_numbers: Vec<Field>,
    pub tags: Vec<Field>,
}

impl Ledger {
    /// What `get_previous_hash` gives at `height`.
    pub open spec fn previous_hash_spec(&self, height: u32) -> Result<BlockHash, LedgerError> {
        if self.previous_hashes@.contains_key(height) {
            Ok(self.previous_hashes@[height])
        } else {
            Err(LedgerError::MissingPreviousHash { height })
        }
    }

    /// What `get_header` gives at `height`.
    pub open spec fn header_spec(&self, height: u32) -> Result<Header, LedgerError> {
        if self.headers@.contains_key(height) {
            Ok(self.headers@[height])
        } else {
            Err(LedgerError::MissingHeader { height })
        }
    }

    /// What `get_transactions` gives at `height`, as a model.
    pub open spec fn transactions_spec(&self, height: u32) -> Result<
        Seq<TransactionModel>,
        LedgerError,
    > {
        if self.transactions@.contains_key(height) {
            Ok(self.transactions@[height]@)
        } else {
            Err(LedgerError::MissingTransactions { height })
        }
    }

    /// What `get_signature` gives at `height`.
    pub open spec fn signature_spec(&self, height: u32) -> Result<Signature, LedgerError> {
        if self.signatures@.contains_key(height) {
            Ok(self.signatures@[height])
        } else {
            Err(LedgerError::MissingSignature { height })
        }
    }

    /// What `get_block` gives at `height`: the four parts, or the error of the
    /// first one missing in the order previous hash, header, transactions, signature.
    pub open spec fn block_spec(&self, height: u32) -> Result<BlockModel, LedgerError> {
        match self.previous_hash_spec(height) {
            Err(e) => Err(e),
            Ok(p) => match self.header_spec(height) {
                Err(e) => Err(e),
                Ok(hd) => match self.transactions_spec(height) {
                    Err(e) => Err(e),
                    Ok(t) => match self.signature_spec(height) {
                        Err(e) => Err(e),
                        Ok(s) => Ok((p, hd, t, s)),
                    },
                },
            },
        }
    }

    /// What `get_hash` gives at `height`.
    pub open spec fn hash_spec(&self, height: u32) -> Result<BlockHash, LedgerError> {
        if height == self.current_height {
            Ok(self.current_hash)
        } else if height < self.current_height {
            if self.previous_hashes@.contains_key((height + 1) as u32) {
                Ok(self.previous_hashes@[(height + 1) as u32])
            } else {
                Err(LedgerError::MissingHash { height })
            }
        } else {
            Err(LedgerError::HeightAboveTip { height, current_height: self.current_height })
        }
    }

    /// The ledger's invariant, kept by the write path: all four stores hold an
    /// entry at every height up to the tip, and the previous-hash store has none
    /// at the height above it.
    pub open spec fn is_well_formed(&self) -> bool {
        &&& forall|h: u32|
            h <= self.current_height ==> {
                &&& #[trigger] self.previous_hashes@.contains_key(h)
                &&& self.headers@.contains_key(h)
                &&& self.transactions@.contains_key(h)
                &&& self.signatures@.contains_key(h)
            }
        &&& self.current_height < u32::MAX ==> !self.previous_hashes@.contains_key(
            (self.current_height + 1) as u32,
        )
    }

    /// A ledger that holds only `genesis` at height 0, whose hash is `genesis_hash`,
    /// with nothing recorded as spent.
    pub fn new(genesis: Block, genesis_hash: BlockHash) -> (r: Ledger)
        ensures
            r.previous_hashes@ == Map::<u32, BlockHash>::empty().insert(0, genesis.previous_hash),
            r.headers@ == Map::<u32, Header>::empty().insert(0, genesis.header),
            r.transactions@ == Map::<u32, Transactions>::empty().insert(0, genesis.transactions),
            r.signatures@ == Map::<u32, Signature>::empty().insert(0, genesis.signature),
            r.current_height == 0,
            r.current_hash == genesis_hash,
            r.serial_numbers@ == Seq::<Field>::empty(),
            r.tags@ == Seq::<Field>::empty(),
            r.is_well_formed(),
    {
        let mut previous_hashes: HashMap<u32, BlockHash> = HashMap::new();
        previous_hashes.insert(0, genesis.previous_hash);
        let mut headers: HashMap<u32, Header> = HashMap::new();
        headers.insert(0, genesis.header);
        let mut transactions: HashMap<u32, Transactions> = HashMap::new();
        transactions.insert(0, genesis.transactions);
        let mut signatures: HashMap<u32, Signature> = HashMap::new();
        signatures.insert(0, genesis.signature);
        Ledger {
            previous_hashes,
            headers,
            transactions,
            signatures,
            current_height: 0,
            current_hash: genesis_hash,
            serial_numbers: Vec::new(),
            tags: Vec::new(),
        }
    }

    /// Returns the block at the given height.
    pub fn get_block(&self, height: u32) -> (r: Result<Block, LedgerError>)
        ensures
            match r {
                Ok(b) => self.block_spec(height) == Ok::<BlockModel, LedgerError>(b@),
                Err(e) => self.block_spec(height) == Err::<BlockModel, LedgerError>(e),
            },
    {
        let previous_hash = match self.get_previous_hash(height) {
            Ok(p) => p,
            Err(e) => return Err(e),
        };
        let header = match self.get_header(height) {
            Ok(hd) => hd,
            Err(e) => return Err(e),
        };
        let transactions = match self.get_transactions(height) {
            Ok(t) => t.duplicate(),
            Err(e) => return Err(e),
        };
        let signature = match self.get_signature(height) {
            Ok(s) => s,
            Err(e) => return Err(e),
        };
        Ok(Block { previous_hash, header, transactions, signature })
    }

    /// Returns the hash of the block at the given height.
    pub fn get_hash(&self, height: u32) -> (r: Result<BlockHash, LedgerError>)
        ensures
            r == self.hash_spec(height),
    {
        if height == self.current_height {
            Ok(self.current_hash)
        } else if height < self.current_height {
            match self.previous_hashes.get(&(height + 1)) {
                Some(hash) => Ok(*hash),
                None => Err(LedgerError::MissingHash { height }),
            }
        } else {
            Err(LedgerError::HeightAboveTip { height, current_height: self.current_height })
        }
    }

    /// Returns the hash of the block preceding the given height.
    pub fn get_previous_hash(&self, height: u32) -> (r: Result<BlockHash, LedgerError>)
        ensures
            r == self.previous_hash_spec(height),
    {
        match self.previous_hashes.get(&height) {
            Some(hash) => Ok(*hash),
            None => Err(LedgerError::MissingPreviousHash { height }),
        }
    }

    /// Returns the block header at the given height.
    pub fn get_header(&self, height: u32) -> (r: Result<Header, LedgerError>)
        ensures
            r == self.header_spec(height),
    {
        match self.headers.get(&height) {
            Some(header) => Ok(*header),
            None => Err(LedgerError::MissingHeader { height }),
        }
    }

    /// Returns the block transactions at the given height, borrowed from the store.
    pub fn get_transactions(&self, height: u32) -> (r: Result<&Transactions, LedgerError>)
        ensures
            match r {
                Ok(t) => self.transactions_spec(height) == Ok::<
                    Seq<TransactionModel>,
                    LedgerError,
                >(t@) && *t == self.transactions@[height],
                Err(e) => self.transactions_spec(height) == Err::<
                    Seq<TransactionModel>,
                    LedgerError,
                >(e),
            },
    {
        match self.transactions.get(&height) {
            Some(transactions) => Ok(transactions),
            None => Err(LedgerError::MissingTransactions { height }),
        }
    }

    /// Returns the block signature at the given height.
    pub fn get_signature(&self, height: u32) -> (r: Result<Signature, LedgerError>)
        ensures
            r == self.signature_spec(height),
    {
        match self.signatures.get(&height) {
            Some(signature) => Ok(*signature),
            None => Err(LedgerError::MissingSignature { height }),
        }
    }
}

impl Ledger {
    /// At a height up to the tip where all four stores hold an entry, the block
    /// is assembled from exactly what the four field accessors return.
    pub proof fn lemma_block_round_trip(&self, height: u32)
        requires
            height <= self.current_height,
            self.previous_hashes@.contains_key(height),
            self.headers@.contains_key(height),
            self.transactions@.contains_key(height),
            self.signatures@.contains_key(height),
        ensures
            self.previous_hash_spec(height) is Ok,
            self.header_spec(height) is Ok,
            self.transactions_spec(height) is Ok,
            self.signature_spec(height) is Ok,
            self.block_spec(height) == Ok::<BlockModel, LedgerError>(
                (
                    self.previous_hash_spec(height)->Ok_0,
                    self.header_spec(height)->Ok_0,
                    self.transactions_spec(height)->Ok_0,
                    self.signature_spec(height)->Ok_0,
                ),
            ),
    {
    }

    /// In a well-formed ledger every block up to the tip can be assembled.
    pub proof fn lemma_well_formed_blocks_assemble(&self, height: u32)
        requires
            self.is_well_formed(),
            height <= self.current_height,
        ensures
            self.block_spec(height) is Ok,
    {
        assert(self.previous_hashes@.contains_key(height));
    }

    /// Below the tip, the hash of a block is the previous hash recorded for its
    /// successor, where that entry exists.
    pub proof fn lemma_hash_chain(&self, height: u32)
        requires
            height < self.current_height,
            self.previous_hashes@.contains_key((height + 1) as u32),
        ensures
            self.hash_spec(height) == self.previous_hash_spec((height + 1) as u32),
    {
    }

    /// The hash of the tip is the cached current hash.
    pub proof fn lemma_tip_hash_is_cached(&self)
        ensures
            self.hash_spec(self.current_height) == Ok::<BlockHash, LedgerError>(self.current_hash),
    {
    }

    /// The height just above the tip has no hash: the request fails as above the tip.
    pub proof fn lemma_hash_above_tip(&self)
        requires
            self.current_height < u32::MAX,
        ensures
            self.hash_spec((self.current_height + 1) as u32) == Err::<BlockHash, LedgerError>(
                LedgerError::HeightAboveTip {
                    height: (self.current_height + 1) as u32,
                    current_height: self.current_height,
                },
            ),
    {
    }

    /// A height that the header store lacks gives the missing-header error.
    pub proof fn lemma_missing_header(&self, height: u32)
        requires
            !self.headers@.contains_key(height),
        ensures
            self.header_spec(height) == Err::<Header, LedgerError>(
                LedgerError::MissingHeader { height },
            ),
    {
    }
}

} // verus!
