//! Ledger-facing configuration values: the target network, the command
//! argument bundles, and the default program id.

use vstd::prelude::*;
use vstd::string::StringExecFns;

verus! {

/// The lower-case form of a string, as `str::to_lowercase` computes it.
/// It is a function of the characters alone; nothing further is assumed
/// of it.
pub uninterp spec fn lower_of(s: Seq<char>) -> Seq<char>;

/// Relies on `str::to_lowercase`: the result depends on the characters
/// alone.
#[verifier::external_body]
fn lowercase(s: &str) -> (r: String)
    ensures
        r@ == lower_of(s@),
{
    s.to_lowercase()
}

/// The ledger network a command talks to.
#[derive(Clone, Copy, Debug, PartialEq, Eq, Structural)]
pub enum Network {
    Devnet,
    Testnet,
    Mainnet,
    Localnet,
}

/// The network a lower-cased name denotes, if any.
pub open spec fn spec_network_of(t: Seq<char>) -> Option<Network> {
    if t == "devnet"@ {
        Some(Network::Devnet)
    } else if t == "testnet"@ {
        Some(Network::Testnet)
    } else if t == "mainnet"@ || t == "mainnet-beta"@ {
        Some(Network::Mainnet)
    } else if t == "localnet"@ || t == "localhost"@ {
        Some(Network::Localnet)
    } else {
        None
    }
}

impl Network {
    /// Parse a network name, case-insensitively; `None` for anything that
    /// names no network.
    pub fn parse(s: &str) -> (r: Option<Network>)
        ensures
            r == spec_network_of(lower_of(s@)),
    {
        let lowered = lowercase(s);
        if lowered.eq(&String::from_str("devnet")) {
            Some(Network::Devnet)
        } else if lowered.eq(&String::from_str("testnet")) {
            Some(Network::Testnet)
        } else if lowered.eq(&String::from_str("mainnet")) || lowered.eq(
            &String::from_str("mainnet-beta"),
        ) {
            Some(Network::Mainnet)
        } else if lowered.eq(&String::from_str("localnet")) || lowered.eq(
            &String::from_str("localhost"),
        ) {
            Some(Network::Localnet)
        } else {
            None
        }
    }
    /// The lower-case name of the network.
    pub open spec fn spec_name(&self) -> Seq<char> {
        match self {
            Network::Devnet => "devnet"@,
            Network::Testnet => "testnet"@,
            Network::Mainnet => "mainnet"@,
            Network::Localnet => "localnet"@,
        }
    }

    /// The lower-case name of the network, for display and for explorer
    /// links.
    pub fn name(&self) -> (r: &'static str)
        ensures
            r@ == self.spec_name(),
    {
        match self {
            Network::Devnet => "devnet",
            Network::Testnet => "testnet",
            Network::Mainnet => "mainnet",
            Network::Localnet => "localnet",
        }
    }
}

/// Arguments of the claim submission command.
#[derive(Debug)]
pub struct ClaimAirdropArgs {
    pub json_path: String,
    pub mint: Option<String>,
    pub address: Option<String>,
    pub network: Network,
    pub program_id: String,
    pub keypair_path: String,
}

/// Arguments of the distribution deployment command.
#[derive(Debug)]
pub struct DeployAirdropArgs {
    pub json_path: String,
    pub mint: String,
    pub amount: u64,
    pub network: Network,
    pub program_id: String,
    pub keypair_path: String,
}

/// The program id that commands use when none is given.
pub fn get_default_program_id() -> (r: String)
    ensures
        r@ == "F6fHBUyYyaW14CxjSnJjLck8vMmWew3PbCnt5TMqRdZX"@,
{
    String::from_str("F6fHBUyYyaW14CxjSnJjLck8vMmWew3PbCnt5TMqRdZX")
}

} // verus!
