//! Plain-text display helpers: status symbols and fixed-width cells.

use vstd::prelude::*;
use vstd::string::*;
use crate::models::VersionStatus;
use crate::text::substring;

verus! {

/// The one-character marker for a status.
pub fn status_symbol(status: VersionStatus) -> (r: &'static str)
    ensures
        r@ == match status {
            VersionStatus::UpToDate => "\u{2713}"@,
            VersionStatus::Patch => "\u{25c6}"@,
            VersionStatus::Minor => "\u{25c8}"@,
            VersionStatus::Major => "\u{2715}"@,
            VersionStatus::Prerelease => "\u{2b06}"@,
            VersionStatus::Unknown => "?"@,
            VersionStatus::Error => "\u{26a0}"@,
            VersionStatus::Vulnerable => "!"@,
        },
{
    match status {
        VersionStatus::UpToDate => "\u{2713}",
        VersionStatus::Patch => "\u{25c6}",
        VersionStatus::Minor => "\u{25c8}",
        VersionStatus::Major => "\u{2715}",
        VersionStatus::Prerelease => "\u{2b06}",
        VersionStatus::Unknown => "?",
        VersionStatus::Error => "\u{26a0}",
        VersionStatus::Vulnerable => "!",
    }
}

/// A run of spaces.
pub open spec fn spaces(n: int) -> Seq<char> {
    Seq::new(
        if n < 0 {
            0
        } else {
            n as nat
        },
        |i: int| ' ',
    )
}

/// `s` padded with trailing spaces to `width` characters; a longer text
/// passes through unchanged.
pub open spec fn pad_right_spec(s: Seq<char>, width: int) -> Seq<char> {
    if s.len() >= width {
        s
    } else {
        s + spaces(width - s.len())
    }
}

/// Pads a text with trailing spaces to the given width.
pub fn pad_right(s: &str, width: usize) -> (r: String)
    ensures
        r@ == pad_right_spec(s@, width as int),
{
    proof {
        reveal_strlit(" ");
    }
    let n = s.unicode_len();
    if n >= width {
        return s.to_owned();
    }
    let mut r = s.to_owned();
    let mut k: usize = n;
    while k < width
        invariant
            n <= k <= width,
            n == s@.len(),
            r@ == s@ + spaces(k - n),
        decreases width - k,
    {
        r = r.concat(" ");
        proof {
            reveal_strlit(" ");
            assert(" "@ =~= seq![' ']);
            assert(r@ =~= s@ + spaces(k + 1 - n));
        }
        k = k + 1;
    }
    r
}

/// `s` cut to `width` characters with a trailing ellipsis; a text that
/// fits passes through unchanged.
pub open spec fn truncate_spec(s: Seq<char>, width: int) -> Seq<char> {
    if s.len() > width {
        s.take(
            if width >= 3 {
                width - 3
            } else {
                0
            },
        ) + "..."@
    } else {
        s
    }
}

/// Cuts a text to the given width, marking the cut with an ellipsis.
pub fn truncate_string(s: &str, width: usize) -> (r: String)
    ensures
        r@ == truncate_spec(s@, width as int),
{
    let n = s.unicode_len();
    if n > width {
        let keep = if width >= 3 {
            width - 3
        } else {
            0
        };
        let prefix = substring(s, 0, keep);
        proof {
            assert(s@.take(keep as int) =~= s@.subrange(0, keep as int));
        }
        prefix.concat("...")
    } else {
        s.to_owned()
    }
}

/// A version cell: the version cut to leave two characters of margin,
/// then padded out to the column width.
pub fn format_version_cell(version: &str, width: usize) -> (r: String)
    ensures
        r@ == pad_right_spec(
            truncate_spec(
                version@,
                if width >= 2 {
                    width - 2
                } else {
                    0
                },
            ),
            width as int,
        ),
{
    let inner = if width >= 2 {
        width - 2
    } else {
        0
    };
    let truncated = truncate_string(version, inner);
    pad_right(truncated.as_str(), width)
}

} // verus!
