use vstd::prelude::*;

use fuel_gql_client::client::FuelClient;
use fuel_tx::{Input, Output};

verus! {

/// fuel-gql-client's `FuelClient`, carried as an opaque handle.
#[verifier::external_type_specification]
#[verifier::external_body]
pub struct ExFuelClient(FuelClient);

/// fuel-tx's `Input`, carried through a transfer unread.
#[verifier::external_type_specification]
#[verifier::external_body]
pub struct ExInput(Input);

/// fuel-tx's `Output`, carried through a transfer unread.
#[verifier::external_type_specification]
#[verifier::external_body]
pub struct ExOutput(Output);

/// std's `io::Error`, the transport failure that a `ProviderError` carries.
#[verifier::external_type_specification]
#[verifier::external_body]
pub struct ExIoError(std::io::Error);

/// Relies on the `Clone` that fuel-tx derives for `Input`: the copy equals
/// the original.
pub assume_specification[ <Input as Clone>::clone ](i: &Input) -> (r: Input)
    ensures
        r == *i,
;

/// Relies on the `Clone` that fuel-gql-client derives for `FuelClient`: the
/// copy speaks to the same node.
pub assume_specification[ <FuelClient as Clone>::clone ](c: &FuelClient) -> (r: FuelClient)
    ensures
        r == *c,
;

/// A failed request to the node.
#[derive(Debug)]
pub enum ProviderError {
    /// The node refused or could not carry out a request.
    TransactionRequestError(String),
    /// The transport to the node failed.
    ClientRequestError(std::io::Error),
}

/// Gas and timing parameters of a transaction.
#[derive(Clone, Copy, Debug, PartialEq, Eq, Structural)]
pub struct TxParameters {
    pub gas_price: u64,
    pub gas_limit: u64,
    pub byte_price: u64,
    pub maturity: u64,
}

pub const DEFAULT_GAS_PRICE: u64 = 0;
pub const DEFAULT_GAS_LIMIT: u64 = 1_000_000;
pub const DEFAULT_BYTE_PRICE: u64 = 0;
pub const DEFAULT_MATURITY: u64 = 0;

impl TxParameters {
    pub fn new(gas_price: Option<u64>, gas_limit: Option<u64>, byte_price: Option<u64>) -> (r: TxParameters)
        ensures
            r.gas_price == match gas_price {
                Some(v) => v,
                None => DEFAULT_GAS_PRICE,
            },
            r.gas_limit == match gas_limit {
                Some(v) => v,
                None => DEFAULT_GAS_LIMIT,
            },
            r.byte_price == match byte_price {
                Some(v) => v,
                None => DEFAULT_BYTE_PRICE,
            },
            r.maturity == DEFAULT_MATURITY,
    {
        TxParameters {
            gas_price: match gas_price {
                Some(v) => v,
                None => DEFAULT_GAS_PRICE,
            },
            gas_limit: match gas_limit {
                Some(v) => v,
                None => DEFAULT_GAS_LIMIT,
            },
            byte_price: match byte_price {
                Some(v) => v,
                None => DEFAULT_BYTE_PRICE,
            },
            maturity: DEFAULT_MATURITY,
        }
    }
}

impl Default for TxParameters {
    fn default() -> (r: TxParameters)
        ensures
            r == (TxParameters {
                gas_price: DEFAULT_GAS_PRICE,
                gas_limit: DEFAULT_GAS_LIMIT,
                byte_price: DEFAULT_BYTE_PRICE,
                maturity: DEFAULT_MATURITY,
            }),
    {
        TxParameters::new(None, None, None)
    }
}

/// A script transaction: gas settings, the script and its data, the inputs
/// it spends, the outputs it makes, and its witnesses.
#[derive(Debug)]
pub struct ScriptTransaction {
    pub gas_price: u64,
    pub gas_limit: u64,
    pub byte_price: u64,
    pub maturity: u64,
    pub receipts_root: [u8; 32],
    pub script: Vec<u8>,
    pub script_data: Vec<u8>,
    pub inputs: Vec<Input>,
    pub outputs: Vec<Output>,
    pub witnesses: Vec<Vec<u8>>,
}

/// The encoding of the instruction that returns the value of `register`.
pub uninterp spec fn ret_instruction(register: usize) -> Seq<u8>;

/// Relies on fuel-asm's `Opcode::RET(register).to_bytes()`: the four bytes
/// that encode a return of `register`.
#[verifier::external_body]
fn ret_instruction_bytes(register: usize) -> (r: [u8; 4])
    ensures
        r@ == ret_instruction(register),
{
    fuel_vm::prelude::Opcode::RET(register).to_bytes()
}

/// The register that always holds one.
pub const REG_ONE: usize = 1;

/// Whether `tx` moves `inputs` to `outputs` under `params` and does nothing
/// else: a script of a single return instruction, no script data, a zero
/// receipts root and no witnesses.
pub open spec fn is_transfer_tx(
    tx: ScriptTransaction,
    inputs: Seq<Input>,
    outputs: Seq<Output>,
    params: TxParameters,
) -> bool {
    &&& tx.gas_price == params.gas_price
    &&& tx.gas_limit == params.gas_limit
    &&& tx.byte_price == params.byte_price
    &&& tx.maturity == params.maturity
    &&& tx.receipts_root@.len() == 32
    &&& forall|i: int| 0 <= i < 32 ==> tx.receipts_root@[i] == 0
    &&& tx.script@ == ret_instruction(REG_ONE)
    &&& tx.script_data@.len() == 0
    &&& tx.inputs@ == inputs
    &&& tx.outputs@ == outputs
    &&& tx.witnesses@.len() == 0
}

/// Encapsulates common operations on a node, through its client.
#[derive(Clone, Debug)]
pub struct Provider {
    pub client: FuelClient,
}

impl Provider {
    pub fn new(client: FuelClient) -> (r: Provider)
        ensures
            r.client == client,
    {
        Provider { client }
    }

    /// A transaction that transfers funds by its inputs and outputs alone.
    pub fn build_transfer_tx(&self, inputs: &[Input], outputs: &[Output], params: TxParameters) -> (r: ScriptTransaction)
        ensures
            is_transfer_tx(r, inputs@, outputs@, params),
    {
        let code = ret_instruction_bytes(REG_ONE);
        let mut script: Vec<u8> = Vec::new();
        let mut k: usize = 0;
        while k < 4
            invariant
                0 <= k <= 4,
                code@.len() == 4,
                script@ == code@.subrange(0, k as int),
            decreases 4 - k,
        {
            script.push(code[k]);
            k = k + 1;
            assert(script@ =~= code@.subrange(0, k as int));
        }
        assert(code@.subrange(0, 4) == code@);
        let mut ins: Vec<Input> = Vec::new();
        let mut i: usize = 0;
        while i < inputs.len()
            invariant
                0 <= i <= inputs@.len(),
                ins@ == inputs@.subrange(0, i as int),
            decreases inputs@.len() - i,
        {
            ins.push(inputs[i].clone());
            i = i + 1;
            assert(ins@ =~= inputs@.subrange(0, i as int));
        }
        assert(inputs@.subrange(0, inputs@.len() as int) == inputs@);
        let mut outs: Vec<Output> = Vec::new();
        let mut j: usize = 0;
        while j < outputs.len()
            invariant
                0 <= j <= outputs@.len(),
                outs@ == outputs@.subrange(0, j as int),
            decreases outputs@.len() - j,
        {
            outs.push(outputs[j]);
            j = j + 1;
            assert(outs@ =~= outputs@.subrange(0, j as int));
        }
        assert(outputs@.subrange(0, outputs@.len() as int) == outputs@);
        ScriptTransaction {
            gas_price: params.gas_price,
            gas_limit: params.gas_limit,
            byte_price: params.byte_price,
            maturity: params.maturity,
            receipts_root: [0u8; 32],
            script,
            script_data: Vec::new(),
            inputs: ins,
            outputs: outs,
            witnesses: Vec::new(),
        }
    }
}

/// Building a transfer is deterministic: two transactions built from the
/// same inputs, outputs and parameters agree field for field, with no
/// witnesses and the same single-instruction script.
pub proof fn lemma_transfer_tx_deterministic(
    a: ScriptTransaction,
    b: ScriptTransaction,
    inputs: Seq<Input>,
    outputs: Seq<Output>,
    params: TxParameters,
)
    requires
        is_transfer_tx(a, inputs, outputs, params),
        is_transfer_tx(b, inputs, outputs, params),
    ensures
        a.gas_price == b.gas_price,
        a.gas_limit == b.gas_limit,
        a.byte_price == b.byte_price,
        a.maturity == b.maturity,
        a.receipts_root == b.receipts_root,
        a.script@ == b.script@,
        a.script_data@ == b.script_data@,
        a.inputs@ == b.inputs@,
        a.outputs@ == b.outputs@,
        a.witnesses@ == b.witnesses@,
        a.witnesses@.len() == 0,
        a.script@ == ret_instruction(REG_ONE),
{
    assert(a.receipts_root =~= b.receipts_root);
    assert(a.script_data@ =~= b.script_data@);
    assert(a.witnesses@ =~= b.witnesses@);
}

} // verus!
