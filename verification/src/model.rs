//! The model providers a judge can be pointed at.

use vstd::prelude::*;

verus! {

#[allow(non_camel_case_types)]
pub enum ModelProviderName {
    OPENAI,
    OPENROUTER,
    ANTHROPIC,
}

impl ModelProviderName {
    /// The provider's name on the wire.
    pub open spec fn spec_str(&self) -> Seq<char> {
        match self {
            ModelProviderName::OPENAI => "openai"@,
            ModelProviderName::OPENROUTER => "openrouter"@,
            ModelProviderName::ANTHROPIC => "anthropic"@,
        }
    }

    pub fn as_str(&self) -> (r: &'static str)
        ensures
            r@ == self.spec_str(),
    {
        match self {
            ModelProviderName::OPENAI => "openai",
            ModelProviderName::OPENROUTER => "openrouter",
            ModelProviderName::ANTHROPIC => "anthropic",
        }
    }
}

} // verus!
