//! A node: its name, the directory of its database, and the chain it joins.

use convert_case::{Case, Casing};
use vstd::prelude::*;

verus! {

/// The chain a node joins.
#[derive(Clone, Debug, PartialEq, Eq)]
pub enum Chain {
    Mainnet,
    Testnet,
    /// A chain given by its specification.
    Custom(String),
}

/// The mathematical value of a `Chain`.
pub enum ChainView {
    Mainnet,
    Testnet,
    Custom(Seq<char>),
}

impl View for Chain {
    type V = ChainView;

    open spec fn view(&self) -> ChainView {
        match self {
            Chain::Mainnet => ChainView::Mainnet,
            Chain::Testnet => ChainView::Testnet,
            Chain::Custom(s) => ChainView::Custom(s@),
        }
    }
}

/// The error of reading a chain from a name that no variant has.
#[derive(Clone, Copy, Debug, PartialEq, Eq, Structural)]
pub enum ChainParseError {
    VariantNotFound,
}

/// The chain that a name selects: the snake-case name of a variant; the
/// name of `Custom` selects a custom chain with an empty specification.
pub open spec fn chain_named(s: Seq<char>) -> Option<ChainView> {
    if s == "mainnet"@ {
        Some(ChainView::Mainnet)
    } else if s == "testnet"@ {
        Some(ChainView::Testnet)
    } else if s == "custom"@ {
        Some(ChainView::Custom(Seq::empty()))
    } else {
        None
    }
}

/// The value of the node's `--chain` option that selects the chain: the
/// name of the network. A custom chain names no network of its own, and its
/// node runs on the test network.
pub open spec fn chain_arg(c: ChainView) -> Seq<char> {
    match c {
        ChainView::Mainnet => "mainnet"@,
        ChainView::Testnet => "testnet"@,
        ChainView::Custom(_) => "testnet"@,
    }
}

impl Chain {
    /// The value of the node's `--chain` option that selects this chain.
    pub fn cli_value(&self) -> (v: &str)
        ensures
            v@ == chain_arg(self@),
    {
        match self {
            Chain::Mainnet => "mainnet",
            Chain::Testnet => "testnet",
            Chain::Custom(_) => "testnet",
        }
    }

    /// Reads a chain from its snake-case name.
    pub fn parse(s: &str) -> (r: Result<Chain, ChainParseError>)
        ensures
            match r {
                Ok(c) => chain_named(s@) == Some(c@),
                Err(e) => chain_named(s@) is None && e == ChainParseError::VariantNotFound,
            },
    {
        if crate::text::same_text(s, "mainnet") {
            Ok(Chain::Mainnet)
        } else if crate::text::same_text(s, "testnet") {
            Ok(Chain::Testnet)
        } else if crate::text::same_text(s, "custom") {
            Ok(Chain::Custom(String::new()))
        } else {
            Err(ChainParseError::VariantNotFound)
        }
    }

    /// A copy of the chain.
    pub fn copied(&self) -> (c: Chain)
        ensures
            c@ == self@,
    {
        match self {
            Chain::Mainnet => Chain::Mainnet,
            Chain::Testnet => Chain::Testnet,
            Chain::Custom(s) => Chain::Custom(s.clone()),
        }
    }
}

impl Default for Chain {
    fn default() -> (c: Chain)
        ensures
            c@ == ChainView::Testnet,
    {
        Chain::Testnet
    }
}

impl core::str::FromStr for Chain {
    type Err = ChainParseError;

    fn from_str(s: &str) -> (r: Result<Chain, ChainParseError>)
        ensures
            match r {
                Ok(c) => chain_named(s@) == Some(c@),
                Err(e) => chain_named(s@) is None && e == ChainParseError::VariantNotFound,
            },
    {
        Chain::parse(s)
    }
}

/// A node known to the manager.
#[derive(Clone, Debug)]
pub struct Node {
    pub name: String,
    /// The directory of the node's database.
    pub path: String,
    pub chain: Chain,
}

/// The mathematical value of a `Node`.
pub struct NodeView {
    pub name: Seq<char>,
    pub path: Seq<char>,
    pub chain: ChainView,
}

impl View for Node {
    type V = NodeView;

    open spec fn view(&self) -> NodeView {
        NodeView { name: self.name@, path: self.path@, chain: self.chain@ }
    }
}

/// The ways of writing text that the manager uses.
#[derive(Clone, Copy, Debug, PartialEq, Eq, Structural)]
pub enum TextCase {
    /// Lower-case words joined by `_`.
    Snake,
    /// Capitalised words joined by spaces.
    Title,
}

/// What `convert_case` makes of `text` in the given case.
pub uninterp spec fn case_converted(text: Seq<char>, case: TextCase) -> Seq<char>;

/// Writes `text` in the given case with `convert_case`'s `Casing::to_case`,
/// which splits the text into words at its default boundaries and joins
/// them as the case prescribes. What the result is, is named by
/// `case_converted` and not stated further.
#[verifier::external_body]
pub(crate) fn to_case(text: &str, case: TextCase) -> (r: String)
    ensures
        r@ == case_converted(text@, case),
{
    let target = match case {
        TextCase::Snake => Case::Snake,
        TextCase::Title => Case::Title,
    };
    text.to_case(target)
}

impl Node {
    /// A node whose name is written in snake case; its database path is kept as given.
    pub fn new(name: &str, path: &str, chain: &Chain) -> (n: Node)
        ensures
            n.name@ == case_converted(name@, TextCase::Snake),
            n.path@ == path@,
            n.chain@ == chain@,
    {
        Node {
            name: to_case(name, TextCase::Snake),
            path: path.to_owned(),
            chain: chain.copied(),
        }
    }

    /// A copy of the node.
    pub fn copied(&self) -> (n: Node)
        ensures
            n@ == self@,
    {
        Node { name: self.name.clone(), path: self.path.clone(), chain: self.chain.copied() }
    }
}

impl Default for Node {
    /// The node `selendra`, with its database under `/var/lib/selendra`, on the test network.
    fn default() -> (n: Node)
        ensures
            n@ == (NodeView {
                name: "selendra"@,
                path: "/var/lib/selendra"@,
                chain: ChainView::Testnet,
            }),
    {
        Node {
            name: "selendra".to_owned(),
            path: "/var/lib/selendra".to_owned(),
            chain: Chain::default(),
        }
    }
}

} // verus!
