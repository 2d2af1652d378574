//! Construction of the language-model request text.
//!
//! The call contract is one fixed system instruction plus one per-record
//! user message built from the record's name, its original tagline, and a
//! truncated prefix of its long description.

use vstd::prelude::*;
use vstd::string::StrSliceExecFns;
use vstd::string::StringExecFns;

verus! {

/// Number of characters of the long description that enter the user prompt.
pub const DESCRIPTION_PREFIX_CHARS: usize = 500;

/// The fixed system instruction sent with every language-model request.
pub const SYSTEM_PROMPT: &'static str = "You are an expert at writing clear, consistent startup taglines. Your task is to normalize startup taglines into a standard format that clearly describes what the company does, for whom, and how.\n\nRules for normalized taglines:\n1. Start with the core action/service the company provides\n2. Specify the target market/industry\n3. Mention the key technology/method if relevant\n4. Keep it concise (5-12 words)\n5. Use consistent formatting and capitalization\n6. Focus on the value proposition, not marketing fluff\n\nExamples:\n- Input: 'Foundational Voice AI for underserved languages' -> Output: 'Voice AI models for underserved languages'\n- Input: 'AI agent that does QA on mobile apps' -> Output: 'Automated mobile app testing using AI'\n- Input: 'RealRoots is a mobile app that guarantees women lifelong friendships' -> Output: 'Friendship matching platform for women'\n\nRespond with ONLY the normalized tagline, no explanation.";

/// The first `DESCRIPTION_PREFIX_CHARS` characters of the description, or
/// all of it when shorter.
pub open spec fn description_prefix(desc: Seq<char>) -> Seq<char> {
    if desc.len() <= DESCRIPTION_PREFIX_CHARS {
        desc
    } else {
        desc.take(DESCRIPTION_PREFIX_CHARS as int)
    }
}

/// The user message of one language-model request.
pub open spec fn user_prompt_view(name: Seq<char>, tagline: Seq<char>, desc: Seq<char>) -> Seq<
    char,
> {
    "Company: "@ + name + "\nCurrent tagline: "@ + tagline + "\nDescription: "@
        + description_prefix(desc) + "\n\nNormalize this tagline:"@
}

/// Builds the user message for one record from its name, original tagline
/// and long description, the description truncated to its first
/// `DESCRIPTION_PREFIX_CHARS` characters.
pub fn build_user_prompt(name: &str, tagline: &str, description: &str) -> (r: String)
    ensures
        r@ == user_prompt_view(name@, tagline@, description@),
{
    let mut s = String::from_str("Company: ");
    s.append(name);
    s.append("\nCurrent tagline: ");
    s.append(tagline);
    s.append("\nDescription: ");
    let dlen = description.unicode_len();
    let cut = if dlen <= DESCRIPTION_PREFIX_CHARS {
        dlen
    } else {
        DESCRIPTION_PREFIX_CHARS
    };
    let prefix = description.substring_char(0, cut);
    proof {
        assert(prefix@ =~= description_prefix(description@));
    }
    s.append(prefix);
    s.append("\n\nNormalize this tagline:");
    proof {
        assert(s@ =~= user_prompt_view(name@, tagline@, description@));
    }
    s
}

} // verus!
