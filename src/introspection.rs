use vstd::prelude::*;

use crate::error::ErrorCode;
use crate::identity::Pubkey;

verus! {

/// One instruction of a transaction: the program it targets, the accounts it
/// names, in order, and its opaque payload.
#[derive(Clone, Debug)]
pub struct Instruction {
    pub program_id: Pubkey,
    pub accounts: Vec<Pubkey>,
    pub data: Vec<u8>,
}

/// The mathematical content of an [`Instruction`].
pub ghost struct InstructionView {
    pub program_id: Pubkey,
    pub accounts: Seq<Pubkey>,
    pub data: Seq<u8>,
}

impl View for Instruction {
    type V = InstructionView;

    open spec fn view(&self) -> InstructionView {
        InstructionView { program_id: self.program_id, accounts: self.accounts@, data: self.data@ }
    }
}

/// The instruction list of the running transaction and the position of the
/// instruction being executed in it.
#[derive(Clone, Debug)]
pub struct Transaction {
    pub instructions: Vec<Instruction>,
    pub current_index: usize,
}

/// The mathematical content of a [`Transaction`].
pub ghost struct TransactionView {
    pub instructions: Seq<InstructionView>,
    pub current_index: nat,
}

impl View for Transaction {
    type V = TransactionView;

    open spec fn view(&self) -> TransactionView {
        TransactionView {
            instructions: self.instructions@.map_values(|ix: Instruction| ix@),
            current_index: self.current_index as nat,
        }
    }
}

/// Read access to the running transaction, where the runtime provides it.
#[derive(Clone, Debug)]
pub struct TransactionInspector {
    pub source: Option<Transaction>,
}

impl View for TransactionInspector {
    type V = Option<TransactionView>;

    open spec fn view(&self) -> Option<TransactionView> {
        match self.source {
            Some(tx) => Some(tx@),
            None => None,
        }
    }
}

/// What `current_index` yields on an inspector with the given content.
pub open spec fn spec_current_index(src: Option<TransactionView>) -> Result<nat, ErrorCode> {
    match src {
        Some(tx) => Ok(tx.current_index),
        None => Err(ErrorCode::MissingIntrospectionSource),
    }
}

/// What `instruction_at(i)` yields on an inspector with the given content.
pub open spec fn spec_instruction_at(src: Option<TransactionView>, i: int) -> Result<
    InstructionView,
    ErrorCode,
> {
    match src {
        Some(tx) => if 0 <= i < tx.instructions.len() {
            Ok(tx.instructions[i])
        } else {
            Err(ErrorCode::IndexOutOfRange)
        },
        None => Err(ErrorCode::MissingIntrospectionSource),
    }
}

impl TransactionInspector {
    /// An inspector over the given transaction.
    pub fn new(instructions: Vec<Instruction>, current_index: usize) -> (r: TransactionInspector)
        ensures
            r.source == Some(Transaction { instructions, current_index }),
    {
        TransactionInspector { source: Some(Transaction { instructions, current_index }) }
    }

    /// An inspector for a runtime that does not expose the transaction.
    pub fn unavailable() -> (r: TransactionInspector)
        ensures
            r@ is None,
    {
        TransactionInspector { source: None }
    }

    /// The position of the executing instruction within its transaction.
    pub fn current_index(&self) -> (r: Result<usize, ErrorCode>)
        ensures
            match r {
                Ok(i) => spec_current_index(self@) == Ok::<nat, ErrorCode>(i as nat),
                Err(e) => spec_current_index(self@) == Err::<nat, ErrorCode>(e),
            },
    {
        match &self.source {
            Some(tx) => Ok(tx.current_index),
            None => Err(ErrorCode::MissingIntrospectionSource),
        }
    }

    /// The instruction at position `i` of the transaction.
    pub fn instruction_at(&self, i: usize) -> (r: Result<&Instruction, ErrorCode>)
        ensures
            match r {
                Ok(ix) => spec_instruction_at(self@, i as int) == Ok::<InstructionView, ErrorCode>(ix@),
                Err(e) => spec_instruction_at(self@, i as int) == Err::<InstructionView, ErrorCode>(e),
            },
    {
        match &self.source {
            Some(tx) => {
                if i < tx.instructions.len() {
                    Ok(&tx.instructions[i])
                } else {
                    Err(ErrorCode::IndexOutOfRange)
                }
            },
            None => Err(ErrorCode::MissingIntrospectionSource),
        }
    }
}

} // verus!
