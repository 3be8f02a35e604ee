//! When a banner naming the source precedes its content, and what it looks
//! like.

use vstd::prelude::*;

verus! {

/// Whether banners are shown for a run over `source_count` sources.
///
/// An explicit request to show them wins, then an explicit request to hide
/// them; with neither, banners appear exactly when there is more than one
/// source.
pub open spec fn banners_shown(explicit_verbose: bool, explicit_quiet: bool, source_count: nat) -> bool {
    explicit_verbose || (!explicit_quiet && source_count > 1)
}

/// Decides once per run whether each source is announced by a banner.
pub fn decide(explicit_verbose: bool, explicit_quiet: bool, source_count: usize) -> (shown: bool)
    ensures
        shown == banners_shown(explicit_verbose, explicit_quiet, source_count as nat),
{
    explicit_verbose || (!explicit_quiet && source_count > 1)
}

/// The banner for a source: its name between arrows, on a line of its own.
pub open spec fn banner_text(name: Seq<char>) -> Seq<char> {
    "==> "@ + name + " <==\n"@
}

/// The blank line that separates one bannered source from the next.
pub open spec fn separator_text() -> Seq<char> {
    "\n"@
}

/// Writes the banner for the source called `name`.
pub fn banner(name: &str) -> (text: String)
    ensures
        text@ == banner_text(name@),
{
    let mut text = String::new();
    text.append("==> ");
    text.append(name);
    text.append(" <==\n");
    text
}

} // verus!
