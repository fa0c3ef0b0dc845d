//! Limits.

use vstd::prelude::*;

use crate::error::{ContextError, ErrorView};

verus! {

/// How many names a scope chain has at most, unless it is set otherwise.
pub const DEFAULT_MAX_SCOPE_CHAIN_LEN: usize = 64;

/// The limits in force. A limit of 0 is no limit.
#[derive(Clone, Copy)]
pub struct Config {
    /// The most bytes that a serialized context may have.
    pub max_context_size: usize,
    /// The most names that a scope chain has.
    pub max_scope_chain_len: usize,
}

impl Config {
    /// No limit on the size, and the default limit on the scope chain.
    pub fn new() -> (r: Self)
        ensures
            r.max_context_size == 0,
            r.max_scope_chain_len == DEFAULT_MAX_SCOPE_CHAIN_LEN,
            r.max_scope_chain_len == 64,
    {
        Config { max_context_size: 0, max_scope_chain_len: DEFAULT_MAX_SCOPE_CHAIN_LEN }
    }

    /// Whether a serialized context of this size is accepted.
    pub open spec fn accepts(self, size: nat) -> bool {
        self.max_context_size == 0 || size <= self.max_context_size
    }
}

impl Default for Config {
    fn default() -> (r: Self)
        ensures
            r.max_context_size == 0,
            r.max_scope_chain_len == DEFAULT_MAX_SCOPE_CHAIN_LEN,
            r.max_scope_chain_len == 64,
    {
        Config::new()
    }
}

/// Set the most bytes that a serialized context may have; 0 lifts the limit.
pub fn set_max_context_size(config: &mut Config, limit: usize)
    ensures
        *final(config) == (Config { max_context_size: limit, ..*old(config) }),
{
    config.max_context_size = limit;
}

/// The most bytes that a serialized context may have; 0 is no limit.
pub fn max_context_size(config: &Config) -> (r: usize)
    ensures
        r == config.max_context_size,
{
    config.max_context_size
}

/// Check the size of a serialized context against the limit.
pub fn check_size(config: &Config, size: usize) -> (r: Result<(), ContextError>)
    ensures
        crate::registry::outcome(r) == (if config.accepts(size as nat) {
            Ok::<(), ErrorView>(())
        } else {
            Err(ErrorView::ContextTooLarge { size, limit: config.max_context_size })
        }),
{
    let limit = max_context_size(config);
    if limit > 0 && size > limit {
        Err(ContextError::ContextTooLarge { size, limit })
    } else {
        Ok(())
    }
}

/// Set the most names that a scope chain has; 0 lifts the limit. Where a chain
/// is longer its oldest names are dropped.
pub fn set_max_scope_chain_len(config: &mut Config, limit: usize)
    ensures
        *final(config) == (Config { max_scope_chain_len: limit, ..*old(config) }),
{
    config.max_scope_chain_len = limit;
}

/// The most names that a scope chain has; 0 is no limit.
pub fn max_scope_chain_len(config: &Config) -> (r: usize)
    ensures
        r == config.max_scope_chain_len,
{
    config.max_scope_chain_len
}

/// A limit of 0 accepts every size, and any other limit exactly the sizes up to
/// it.
pub proof fn law_sizes_up_to_the_limit(config: Config, size: nat)
    ensures
        config.max_context_size == 0 ==> config.accepts(size),
        config.max_context_size > 0 ==> (config.accepts(size) <==> size
            <= config.max_context_size),
{
}

} // verus!
