//! Data model of the token-factory module: denom metadata, module
//! parameters, genesis shape, and the query and message payloads. These are
//! plain records; encoding them for the chain and dispatching queries belong
//! to the embedding layer.

use vstd::prelude::*;

verus! {

/// An amount of a single token denomination. The amount is kept as the
/// decimal string the chain uses on the wire.
#[derive(Clone, PartialEq, Eq, Debug, Default)]
pub struct Coin {
    pub denom: String,
    pub amount: String,
}

/// One named unit of a denomination, with its power-of-ten exponent
/// relative to the base unit.
#[derive(Clone, PartialEq, Eq, Debug, Default)]
pub struct DenomUnit {
    pub denom: String,
    pub exponent: u32,
    pub aliases: Vec<String>,
}

/// Bank metadata describing a denomination.
#[derive(Clone, PartialEq, Eq, Debug, Default)]
pub struct Metadata {
    pub description: String,
    pub denom_units: Vec<DenomUnit>,
    pub base: String,
    pub display: String,
    pub name: String,
    pub symbol: String,
}

/// DenomAuthorityMetadata specifies metadata for addresses that have
/// specific capabilities over a token factory denom. Right now there is only
/// one admin permission.
#[derive(Clone, PartialEq, Eq, Debug, Default)]
pub struct DenomAuthorityMetadata {
    /// Can be empty for no admin, or a valid address.
    pub admin: String,
}

/// Event emitted when a token factory denom is created.
#[derive(Clone, PartialEq, Eq, Debug, Default)]
pub struct EventCreateTfDenom {
    pub account: String,
    pub denom: String,
}

/// Event emitted when a token factory denom is minted.
#[derive(Clone, PartialEq, Eq, Debug, Default)]
pub struct EventMintTfDenom {
    pub recipient_address: String,
    pub amount: Option<Coin>,
}

/// Event emitted when a token factory denom is burned.
#[derive(Clone, PartialEq, Eq, Debug, Default)]
pub struct EventBurnDenom {
    pub burner_address: String,
    pub amount: Option<Coin>,
}

/// Event emitted when a token factory denom changes admin.
#[derive(Clone, PartialEq, Eq, Debug, Default)]
pub struct EventChangeTfAdmin {
    pub denom: String,
    pub new_admin_address: String,
}

/// Event emitted when metadata is set for a token factory denom.
#[derive(Clone, PartialEq, Eq, Debug, Default)]
pub struct EventSetTfDenomMetadata {
    pub denom: String,
    pub metadata: Option<Metadata>,
}

/// Params defines the parameters for the tokenfactory module.
#[derive(Clone, PartialEq, Eq, Debug, Default)]
pub struct Params {
    pub denom_creation_fee: Vec<Coin>,
}

/// GenesisState defines the tokenfactory module's genesis state.
#[derive(Clone, PartialEq, Eq, Debug, Default)]
pub struct GenesisState {
    /// The parameters of the module.
    pub params: Option<Params>,
    pub factory_denoms: Vec<GenesisDenom>,
}

/// GenesisDenom defines a tokenfactory denom that is defined within genesis
/// state. The structure contains DenomAuthorityMetadata which defines the
/// denom's admin.
#[derive(Clone, PartialEq, Eq, Debug, Default)]
pub struct GenesisDenom {
    pub denom: String,
    pub authority_metadata: Option<DenomAuthorityMetadata>,
    pub name: String,
    pub symbol: String,
}

/// QueryParamsRequest is the request type for the params query.
#[derive(Clone, PartialEq, Eq, Debug, Default)]
pub struct QueryParamsRequest {}

/// QueryParamsResponse is the response type for the params query.
#[derive(Clone, PartialEq, Eq, Debug, Default)]
pub struct QueryParamsResponse {
    /// The parameters of the module.
    pub params: Option<Params>,
}

/// Request for the authority metadata of one denom.
#[derive(Clone, PartialEq, Eq, Debug, Default)]
pub struct QueryDenomAuthorityMetadataRequest {
    pub creator: String,
    pub sub_denom: String,
}

/// Response carrying the authority metadata of one denom.
#[derive(Clone, PartialEq, Eq, Debug, Default)]
pub struct QueryDenomAuthorityMetadataResponse {
    pub authority_metadata: Option<DenomAuthorityMetadata>,
}

/// Request for all denoms created by one creator.
#[derive(Clone, PartialEq, Eq, Debug, Default)]
pub struct QueryDenomsFromCreatorRequest {
    pub creator: String,
}

/// Response listing all denoms created by one creator.
#[derive(Clone, PartialEq, Eq, Debug, Default)]
pub struct QueryDenomsFromCreatorResponse {
    pub denoms: Vec<String>,
}

/// Request for the whole module state.
#[derive(Clone, PartialEq, Eq, Debug, Default)]
pub struct QueryModuleStateRequest {}

/// Response carrying the whole module state.
#[derive(Clone, PartialEq, Eq, Debug, Default)]
pub struct QueryModuleStateResponse {
    pub state: Option<GenesisState>,
}

/// MsgCreateDenom allows an account to create a new denom. The pair of
/// sender address and sub-denomination must be unique and cannot be reused;
/// the resulting denom's admin is originally the creator.
#[derive(Clone, PartialEq, Eq, Debug, Default)]
pub struct MsgCreateDenom {
    pub sender: String,
    /// The sub-denomination can be up to 44 alphanumeric characters long.
    pub subdenom: String,
    pub name: String,
    pub symbol: String,
}

/// MsgCreateDenomResponse returns the full string of the newly created
/// denom.
#[derive(Clone, PartialEq, Eq, Debug, Default)]
pub struct MsgCreateDenomResponse {
    pub new_token_denom: String,
}

/// MsgMint allows an admin account to mint more of a token to the sender
/// account.
#[derive(Clone, PartialEq, Eq, Debug, Default)]
pub struct MsgMint {
    pub sender: String,
    pub amount: Option<Coin>,
}

/// Response to MsgMint.
#[derive(Clone, PartialEq, Eq, Debug, Default)]
pub struct MsgMintResponse {}

/// MsgBurn allows an admin account to burn a token from the sender account.
#[derive(Clone, PartialEq, Eq, Debug, Default)]
pub struct MsgBurn {
    pub sender: String,
    pub amount: Option<Coin>,
}

/// Response to MsgBurn.
#[derive(Clone, PartialEq, Eq, Debug, Default)]
pub struct MsgBurnResponse {}

/// MsgChangeAdmin allows an admin account to reassign adminship of a denom
/// to a new account.
#[derive(Clone, PartialEq, Eq, Debug, Default)]
pub struct MsgChangeAdmin {
    pub sender: String,
    pub denom: String,
    pub new_admin: String,
}

/// Response to MsgChangeAdmin.
#[derive(Clone, PartialEq, Eq, Debug, Default)]
pub struct MsgChangeAdminResponse {}

/// MsgSetDenomMetadata allows an admin account to set the denom's bank
/// metadata.
#[derive(Clone, PartialEq, Eq, Debug, Default)]
pub struct MsgSetDenomMetadata {
    pub sender: String,
    pub metadata: Option<Metadata>,
}

/// Response to MsgSetDenomMetadata.
#[derive(Clone, PartialEq, Eq, Debug, Default)]
pub struct MsgSetDenomMetadataResponse {}

/// MsgUpdateParams updates the tokenfactory module parameters; all
/// parameters must be supplied.
#[derive(Clone, PartialEq, Eq, Debug, Default)]
pub struct MsgUpdateParams {
    /// The address of the governance account.
    pub authority: String,
    pub params: Option<Params>,
}

/// Response to MsgUpdateParams.
#[derive(Clone, PartialEq, Eq, Debug, Default)]
pub struct MsgUpdateParamsResponse {}

} // verus!
