//! The declared body transform of a stored blob and its canonical stored
//! name.  Only the identity ("uncompressed") transform has an implemented
//! code path; the lz4 variant is declared but not implemented.

use vstd::prelude::*;
use vstd::string::StringExecFns;

verus! {

#[derive(Clone, Copy, PartialEq, Eq, Structural, Debug)]
pub enum CompressionStrategy {
    Lz4,
    Uncompressed,
}

/// The canonical stored name of a strategy.
pub open spec fn strategy_name(s: CompressionStrategy) -> Seq<char> {
    match s {
        CompressionStrategy::Lz4 => "lz4"@,
        CompressionStrategy::Uncompressed => "uncompressed"@,
    }
}

/// Text that names some strategy.
pub open spec fn is_strategy_name(s: Seq<char>) -> bool {
    s == strategy_name(CompressionStrategy::Lz4) || s == strategy_name(
        CompressionStrategy::Uncompressed,
    )
}

/// The two strategy names differ, so a name determines the strategy.
pub proof fn lemma_strategy_name_injective(a: CompressionStrategy, b: CompressionStrategy)
    requires
        strategy_name(a) == strategy_name(b),
    ensures
        a == b,
{
    reveal_strlit("lz4");
    reveal_strlit("uncompressed");
    assert("lz4"@.len() == 3);
    assert("uncompressed"@.len() == 12);
    match (a, b) {
        (CompressionStrategy::Lz4, CompressionStrategy::Uncompressed) => {
            assert(false);
        },
        (CompressionStrategy::Uncompressed, CompressionStrategy::Lz4) => {
            assert(false);
        },
        _ => {},
    }
}

impl CompressionStrategy {
    /// Renders the strategy as its canonical stored name.
    pub fn name(&self) -> (r: String)
        ensures
            r@ == strategy_name(*self),
    {
        match self {
            CompressionStrategy::Lz4 => String::from_str("lz4"),
            CompressionStrategy::Uncompressed => String::from_str("uncompressed"),
        }
    }

    /// Reads a stored name back into a strategy; fails exactly on text that
    /// names none.
    pub fn from_name(s: &str) -> (r: Option<CompressionStrategy>)
        ensures
            match r {
                Some(v) => strategy_name(v) == s@,
                None => !is_strategy_name(s@),
            },
    {
        let t = s.to_owned();
        if t == String::from_str("lz4") {
            Some(CompressionStrategy::Lz4)
        } else if t == String::from_str("uncompressed") {
            Some(CompressionStrategy::Uncompressed)
        } else {
            None
        }
    }
}

} // verus!
