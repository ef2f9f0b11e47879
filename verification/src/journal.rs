//! Journaling support: the transaction-recording API.
//!
//! The commit path records state transitions only; no journal blocks
//! are written yet.

use vstd::prelude::*;

use crate::device::BlockDevice;
use crate::{Ext4Error, Ext4FileSystem, Ext4Result};

verus! {

/// Journaling support for ext4
#[derive(Debug)]
pub struct Journal {
    /// Journal inode number
    pub journal_inum: u32,
    /// Journal size in blocks
    pub journal_size: u32,
    /// Journal block size
    pub journal_block_size: u32,
    /// Maximum transaction size
    pub max_transaction_size: u32,
    /// Current transaction
    pub current_transaction: Option<Transaction>,
    /// The id the next transaction gets
    pub next_transaction_id: u32,
}

/// Journal transaction
#[derive(Debug)]
pub struct Transaction {
    /// Transaction ID
    pub id: u32,
    /// Blocks in this transaction
    pub blocks: Vec<TransactionBlock>,
    /// Transaction state
    pub state: TransactionState,
}

/// Transaction state
#[derive(Debug, Clone, Copy, PartialEq, Eq, Structural)]
pub enum TransactionState {
    Running,
    Committing,
    Committed,
    Aborted,
}

/// Transaction block
#[derive(Debug, Clone)]
pub struct TransactionBlock {
    /// Block number
    pub block_num: u32,
    /// Block data
    pub data: Vec<u8>,
    /// Block type
    pub block_type: BlockType,
}

/// Block type in journal
#[derive(Debug, Clone, Copy, PartialEq, Eq, Structural)]
pub enum BlockType {
    Descriptor,
    Data,
    Commit,
    Revoke,
}

impl Journal {
    /// Create a new journal
    pub fn new(journal_inum: u32, journal_size: u32, journal_block_size: u32) -> (r: Self)
        ensures
            r.journal_inum == journal_inum,
            r.journal_size == journal_size,
            r.journal_block_size == journal_block_size,
            r.max_transaction_size == journal_size / 4,
            r.current_transaction is None,
            r.next_transaction_id == 1,
    {
        Self {
            journal_inum,
            journal_size,
            journal_block_size,
            max_transaction_size: journal_size / 4,  // Conservative estimate
            current_transaction: None,
            next_transaction_id: 1,
        }
    }

    /// Start a new transaction; only one may run at a time.
    pub fn begin_transaction(&mut self) -> (r: Ext4Result<u32>)
        ensures
            old(self).current_transaction is Some ==> r == Ext4Result::<u32>::Err(
                Ext4Error::InvalidInput,
            ) && *final(self) == *old(self),
            old(self).current_transaction is None ==> ({
                &&& r == Ext4Result::<u32>::Ok(old(self).next_transaction_id)
                &&& final(self).current_transaction matches Some(t) && t.id == old(
                    self,
                ).next_transaction_id && t.blocks@.len() == 0 && t.state
                    == TransactionState::Running
                &&& final(self).next_transaction_id == (if old(self).next_transaction_id
                    == 0xFFFF_FFFFu32 {
                    1u32
                } else {
                    (old(self).next_transaction_id + 1) as u32
                })
                &&& final(self).journal_inum == old(self).journal_inum
                &&& final(self).journal_size == old(self).journal_size
                &&& final(self).journal_block_size == old(self).journal_block_size
                &&& final(self).max_transaction_size == old(self).max_transaction_size
            }),
    {
        if self.current_transaction.is_some() {
            return Err(Ext4Error::InvalidInput);
        }

        let id = self.next_transaction_id;
        self.next_transaction_id = if self.next_transaction_id == 0xFFFF_FFFF {
            1
        } else {
            self.next_transaction_id + 1
        };
        self.current_transaction = Some(
            Transaction { id, blocks: Vec::new(), state: TransactionState::Running },
        );

        Ok(id)
    }

    /// Add a block to the current transaction.
    pub fn add_block(&mut self, block_num: u32, data: Vec<u8>, block_type: BlockType) -> (r:
        Ext4Result<()>)
        ensures
            old(self).current_transaction is None ==> r == Ext4Result::<()>::Err(
                Ext4Error::InvalidInput,
            ) && *final(self) == *old(self),
            (old(self).current_transaction matches Some(t) && t.state
                != TransactionState::Running) ==> r == Ext4Result::<()>::Err(
                Ext4Error::InvalidInput,
            ),
            (old(self).current_transaction matches Some(t) && t.state == TransactionState::Running
                && t.blocks@.len() >= old(self).max_transaction_size) ==> r == Ext4Result::<
                (),
            >::Err(Ext4Error::NoSpaceLeft),
            old(self).current_transaction matches Some(t) ==> ((t.state
                == TransactionState::Running && t.blocks@.len() < old(self).max_transaction_size)
                ==> (r is Ok && (final(self).current_transaction matches Some(nt) && nt.id == t.id
                && nt.state == t.state && nt.blocks@ == t.blocks@.push(
                (TransactionBlock { block_num, data, block_type }),
            )))),
    {
        match &mut self.current_transaction {
            None => Err(Ext4Error::InvalidInput),
            Some(transaction) => {
                if !matches!(transaction.state, TransactionState::Running) {
                    return Err(Ext4Error::InvalidInput);
                }

                if transaction.blocks.len() >= self.max_transaction_size as usize {
                    return Err(Ext4Error::NoSpaceLeft);
                }

                transaction.blocks.push(TransactionBlock { block_num, data, block_type });

                Ok(())
            },
        }
    }

    /// Commit the current transaction.
    ///
    /// The transaction moves through `Committing` to `Committed` and is
    /// dropped; no journal blocks are written to the filesystem.
    pub fn commit_transaction<D: BlockDevice>(&mut self, _fs: &mut Ext4FileSystem<D>) -> (r:
        Ext4Result<()>)
        ensures
            *final(_fs) == *old(_fs),
            old(self).current_transaction is None ==> r == Ext4Result::<()>::Err(
                Ext4Error::InvalidInput,
            ) && *final(self) == *old(self),
            (old(self).current_transaction matches Some(t) && t.state
                != TransactionState::Running) ==> r == Ext4Result::<()>::Err(
                Ext4Error::InvalidInput,
            ),
            (old(self).current_transaction matches Some(t) && t.state == TransactionState::Running)
                ==> r is Ok && final(self).current_transaction is None && final(self).journal_inum
                == old(self).journal_inum && final(self).next_transaction_id == old(
                self,
            ).next_transaction_id,
    {
        match &self.current_transaction {
            None => {
                return Err(Ext4Error::InvalidInput);
            },
            Some(transaction) => {
                if !matches!(transaction.state, TransactionState::Running) {
                    return Err(Ext4Error::InvalidInput);
                }
            },
        }

        // Write transaction to journal
        // (journal block writes are not performed yet)
        self.current_transaction = None;

        Ok(())
    }

    /// Abort the current transaction.
    pub fn abort_transaction(&mut self) -> (r: Ext4Result<()>)
        ensures
            old(self).current_transaction is None ==> r == Ext4Result::<()>::Err(
                Ext4Error::InvalidInput,
            ) && *final(self) == *old(self),
            (old(self).current_transaction matches Some(t) && t.state
                != TransactionState::Running) ==> r == Ext4Result::<()>::Err(
                Ext4Error::InvalidInput,
            ),
            (old(self).current_transaction matches Some(t) && t.state == TransactionState::Running)
                ==> r is Ok && final(self).current_transaction is None && final(self).journal_inum
                == old(self).journal_inum && final(self).next_transaction_id == old(
                self,
            ).next_transaction_id,
    {
        match &self.current_transaction {
            None => {
                return Err(Ext4Error::InvalidInput);
            },
            Some(transaction) => {
                if !matches!(transaction.state, TransactionState::Running) {
                    return Err(Ext4Error::InvalidInput);
                }
            },
        }

        self.current_transaction = None;

        Ok(())
    }

    /// Check if journaling is enabled
    pub fn is_enabled(&self) -> (r: bool)
        ensures
            r == (self.journal_inum != 0),
    {
        self.journal_inum != 0
    }

    /// Replay the journal (for recovery); with no journal blocks ever
    /// written there is nothing to apply.
    pub fn replay<D: BlockDevice>(&self, _fs: &mut Ext4FileSystem<D>) -> (r: Ext4Result<()>)
        ensures
            *final(_fs) == *old(_fs),
            r is Ok,
    {
        if !self.is_enabled() {
            return Ok(());
        }

        Ok(())
    }
}

} // verus!
