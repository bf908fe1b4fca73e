//! The noise rules: deletions applied one after the other to a title.

use crate::title_rules::{strip, stripped};
use vstd::prelude::*;

verus! {

/// Number of noise rules.
pub const NOISE_RULES: usize = 35;

/// The pattern of noise rule `i`; each is matched without regard to case.
pub open spec fn noise_rule(i: int) -> Seq<char> {
    // platform suffixes
    if i == 0 {
        r"(?i)\s*-\s*YouTube\s*Music\s*$"@
    } else if i == 1 {
        r"(?i)\s*-\s*YouTube\s*$"@
    // official / music / lyric video or audio, in any bracket
    } else if i == 2 {
        r"(?i)\s*\(.*?(?i:official|music|lyric).*?(?i:video|audio).*?\)"@
    } else if i == 3 {
        r"(?i)\s*【.*?(?i:official|music|lyric).*?(?i:video|audio).*?】"@
    } else if i == 4 {
        r"(?i)\s*\[.*?(?i:official|music|lyric).*?(?i:video|audio).*?\]"@
    // MV markers
    } else if i == 5 {
        r"(?i)\s*\(.*?(?i:mv).*?\)"@
    } else if i == 6 {
        r"(?i)\s*【.*?(?i:mv).*?】"@
    } else if i == 7 {
        r"(?i)\s*\[.*?(?i:mv).*?\]"@
    // file extensions
    } else if i == 8 {
        r"(?i)\.(?i:flv|mp4|avi|mov|wmv|mkv)$"@
    // playlist tags
    } else if i == 9 {
        r"(?i)\s*\[.*?(?i:playlist).*?\]"@
    // language and subtitle tags
    } else if i == 10 {
        r"(?i)\s*\(.*?(?i:中文|日本語|한국어|english\s+sub|lyrics?).*?\)"@
    } else if i == 11 {
        r"(?i)\s*【.*?(?i:中文|日本語|한국어|english\s+sub|lyrics?).*?】"@
    // quality tags
    } else if i == 12 {
        r"(?i)\s*\[.*?(?i:4k|hd|remaster).*?\]"@
    } else if i == 13 {
        r"(?i)\s*\(.*?(?i:4k).*?\)"@
    // featured artists
    } else if i == 14 {
        r"(?i)\s*\(feat\.\s+[^)]*\)"@
    } else if i == 15 {
        r"(?i)\s*\(ft\.\s+[^)]*\)"@
    } else if i == 16 {
        r"(?i)\s*\(featuring\s+[^)]*\)"@
    } else if i == 17 {
        r"(?i)\s+ft\.?\s+@?[^()]*$"@
    } else if i == 18 {
        r"(?i)\s+feat\.?\s+[^()]*$"@
    // producer credits
    } else if i == 19 {
        r"(?i)\s*\(prod\.\s*[^)]*\)"@
    // bare video and audio tags
    } else if i == 20 {
        r"(?i)\s*\((?i:visualizer|video|audio)\)"@
    } else if i == 21 {
        r"(?i)\s*\((?i:acoustic\s+video)\)"@
    // translation credits
    } else if i == 22 {
        r"(?i)\s*\([^)]*(?i:中文|chinese|中字版|华纳官方|華納官方)[^)]*\)"@
    } else if i == 23 {
        r"(?i)\s*\([^)]*(?i:english\s+sub|eng\s+sub|subtitle)[^)]*\)"@
    // version, demo and remix tags
    } else if i == 24 {
        r"(?i)\s*\((?i:twin\s+ver\.?|version)\)"@
    } else if i == 25 {
        r"(?i)\s*\((?i:magic\s+shop\s+demo|demo)\)"@
    } else if i == 26 {
        r"(?i)\s*\((?i:ryan\s+exley\s+remix|remix)\)"@
    // instrumentation tags
    } else if i == 27 {
        r"(?i)\s*\((?i:piano\s*&\s*cello|piano\s+version)\)"@
    // session tags
    } else if i == 28 {
        r"(?i)\s*\((?i:acoustic\s+session|session)\)"@
    // translated titles in parentheses, pinned to known titles
    } else if i == 29 {
        r"(?i)\s*\([^)]*(?i:where\s+memory|go\s+to\s+heyyo|don't\s+rain\s+on\s+me|anglerfish's\s+love|the\s+city\s+is\s+eating|devil\s+doesn't\s+bargain)[^)]*\)"@
    // stripped, descriptive and original tags
    } else if i == 30 {
        r"(?i)\s*\((?i:stripped)\)"@
    } else if i == 31 {
        r"(?i)\s*\(行ってらっしゃい\)"@
    } else if i == 32 {
        r"(?i)\s*\((?i:original)\)"@
    // live venue stamps
    } else if i == 33 {
        r"(?i)\s*\(Live\s+At\s+[^)]+\)"@
    // a year after a slash
    } else {
        r"(?i)\s*/\s*\d{4}\s*$"@
    }
}

/// The pattern of noise rule `i`.
pub fn noise_rule_at(i: usize) -> (r: &'static str)
    requires
        i < NOISE_RULES,
    ensures
        r@ == noise_rule(i as int),
{
    if i == 0 {
        r"(?i)\s*-\s*YouTube\s*Music\s*$"
    } else if i == 1 {
        r"(?i)\s*-\s*YouTube\s*$"
    } else if i == 2 {
        r"(?i)\s*\(.*?(?i:official|music|lyric).*?(?i:video|audio).*?\)"
    } else if i == 3 {
        r"(?i)\s*【.*?(?i:official|music|lyric).*?(?i:video|audio).*?】"
    } else if i == 4 {
        r"(?i)\s*\[.*?(?i:official|music|lyric).*?(?i:video|audio).*?\]"
    } else if i == 5 {
        r"(?i)\s*\(.*?(?i:mv).*?\)"
    } else if i == 6 {
        r"(?i)\s*【.*?(?i:mv).*?】"
    } else if i == 7 {
        r"(?i)\s*\[.*?(?i:mv).*?\]"
    } else if i == 8 {
        r"(?i)\.(?i:flv|mp4|avi|mov|wmv|mkv)$"
    } else if i == 9 {
        r"(?i)\s*\[.*?(?i:playlist).*?\]"
    } else if i == 10 {
        r"(?i)\s*\(.*?(?i:中文|日本語|한국어|english\s+sub|lyrics?).*?\)"
    } else if i == 11 {
        r"(?i)\s*【.*?(?i:中文|日本語|한국어|english\s+sub|lyrics?).*?】"
    } else if i == 12 {
        r"(?i)\s*\[.*?(?i:4k|hd|remaster).*?\]"
    } else if i == 13 {
        r"(?i)\s*\(.*?(?i:4k).*?\)"
    } else if i == 14 {
        r"(?i)\s*\(feat\.\s+[^)]*\)"
    } else if i == 15 {
        r"(?i)\s*\(ft\.\s+[^)]*\)"
    } else if i == 16 {
        r"(?i)\s*\(featuring\s+[^)]*\)"
    } else if i == 17 {
        r"(?i)\s+ft\.?\s+@?[^()]*$"
    } else if i == 18 {
        r"(?i)\s+feat\.?\s+[^()]*$"
    } else if i == 19 {
        r"(?i)\s*\(prod\.\s*[^)]*\)"
    } else if i == 20 {
        r"(?i)\s*\((?i:visualizer|video|audio)\)"
    } else if i == 21 {
        r"(?i)\s*\((?i:acoustic\s+video)\)"
    } else if i == 22 {
        r"(?i)\s*\([^)]*(?i:中文|chinese|中字版|华纳官方|華納官方)[^)]*\)"
    } else if i == 23 {
        r"(?i)\s*\([^)]*(?i:english\s+sub|eng\s+sub|subtitle)[^)]*\)"
    } else if i == 24 {
        r"(?i)\s*\((?i:twin\s+ver\.?|version)\)"
    } else if i == 25 {
        r"(?i)\s*\((?i:magic\s+shop\s+demo|demo)\)"
    } else if i == 26 {
        r"(?i)\s*\((?i:ryan\s+exley\s+remix|remix)\)"
    } else if i == 27 {
        r"(?i)\s*\((?i:piano\s*&\s*cello|piano\s+version)\)"
    } else if i == 28 {
        r"(?i)\s*\((?i:acoustic\s+session|session)\)"
    } else if i == 29 {
        r"(?i)\s*\([^)]*(?i:where\s+memory|go\s+to\s+heyyo|don't\s+rain\s+on\s+me|anglerfish's\s+love|the\s+city\s+is\s+eating|devil\s+doesn't\s+bargain)[^)]*\)"
    } else if i == 30 {
        r"(?i)\s*\((?i:stripped)\)"
    } else if i == 31 {
        r"(?i)\s*\(行ってらっしゃい\)"
    } else if i == 32 {
        r"(?i)\s*\((?i:original)\)"
    } else if i == 33 {
        r"(?i)\s*\(Live\s+At\s+[^)]+\)"
    } else {
        r"(?i)\s*/\s*\d{4}\s*$"
    }
}

/// The title after the first `n` noise rules: each deletes its matches and is
/// kept only if more than one character is left.
pub open spec fn noise_stripped(s: Seq<char>, n: nat) -> Seq<char>
    decreases n,
{
    if n == 0 {
        s
    } else {
        stripped(noise_stripped(s, (n - 1) as nat), noise_rule(n - 1), 1)
    }
}

/// Noise rules leave a title that has text with text.
pub proof fn lemma_noise_stripped_keeps_text(s: Seq<char>, n: nat)
    requires
        s.len() > 0,
    ensures
        noise_stripped(s, n).len() > 0,
    decreases n,
{
    if n > 0 {
        lemma_noise_stripped_keeps_text(s, (n - 1) as nat);
    }
}

/// Applies every noise rule in order.
pub fn strip_noise(title: String) -> (r: String)
    ensures
        r@ == noise_stripped(title@, NOISE_RULES as nat),
{
    let mut current = title;
    let mut i: usize = 0;
    while i < NOISE_RULES
        invariant
            i <= NOISE_RULES,
            current@ == noise_stripped(title@, i as nat),
        decreases NOISE_RULES - i,
    {
        current = strip(current, noise_rule_at(i), 1);
        i += 1;
    }
    current
}

} // verus!
