//! Decisions of the interactive wizard: reading commands, indices and
//! confirmations, and choosing what a whitelist request adds.

use vstd::prelude::*;
use vstd::string::*;

use crate::app::AppTarget;
use crate::text::{
    comma_sep, parse_usize, parse_usize_str, split_commas, split_on, split_words, str_equal,
    string_texts, to_lowercase, trim, trim_str, lowercase, words,
};

verus! {

/// The comma-separated pieces of all tokens, in order.
pub open spec fn comma_pieces(tokens: Seq<Seq<char>>) -> Seq<Seq<char>>
    decreases tokens.len(),
{
    if tokens.len() == 0 {
        Seq::empty()
    } else {
        comma_pieces(tokens.drop_last()) + split_on(tokens.last(), comma_sep())
    }
}

/// The zero-based indices that pieces select, in order of first mention:
/// each piece, trimmed, that parses as a number from 1 to `max_len` selects
/// that number minus one, once.
pub open spec fn collect_indices(pieces: Seq<Seq<char>>, max_len: nat) -> Seq<usize>
    decreases pieces.len(),
{
    if pieces.len() == 0 {
        Seq::empty()
    } else {
        let acc = collect_indices(pieces.drop_last(), max_len);
        match parse_usize(trim(pieces.last())) {
            Some(n) => if 1 <= n <= max_len && !acc.contains((n - 1) as usize) {
                acc.push((n - 1) as usize)
            } else {
                acc
            },
            None => acc,
        }
    }
}

/// The zero-based indices that tokens such as "1", "2,3" or "4," select
/// among `max_len` entries numbered from one.
pub open spec fn selected_indices(tokens: Seq<Seq<char>>, max_len: nat) -> Seq<usize> {
    collect_indices(comma_pieces(tokens), max_len)
}

/// What the selected indices are, over all pieces: each is below the number
/// of entries, none repeats, every piece that (trimmed) reads as a number
/// from 1 to `max_len` selects that number minus one, and every selected
/// index comes from such a piece.
pub proof fn lemma_collected_indices(pieces: Seq<Seq<char>>, max_len: nat)
    ensures
        ({
            let r = collect_indices(pieces, max_len);
            &&& forall|k: int| 0 <= k < r.len() ==> (#[trigger] r[k] as nat) < max_len
            &&& forall|j: int, k: int| 0 <= j < k < r.len() ==> r[j] != r[k]
            &&& forall|i: int|
                0 <= i < pieces.len() ==> match #[trigger] parse_usize(trim(pieces[i])) {
                    Some(n) => 1 <= n <= max_len ==> r.contains((n - 1) as usize),
                    None => true,
                }
            &&& forall|x: usize|
                #[trigger] r.contains(x) ==> exists|i: int|
                    0 <= i < pieces.len() && parse_usize(trim(pieces[i])) == Some((x + 1) as nat)
        }),
    decreases pieces.len(),
{
    if pieces.len() > 0 {
        let prev = pieces.drop_last();
        lemma_collected_indices(prev, max_len);
        let acc = collect_indices(prev, max_len);
        let r = collect_indices(pieces, max_len);
        let last = pieces.last();
        assert forall|i: int| 0 <= i < prev.len() implies pieces[i] == #[trigger] prev[i] by {}
        assert forall|x: usize| #[trigger] r.contains(x) implies exists|i: int|
            0 <= i < pieces.len() && parse_usize(trim(pieces[i])) == Some((x + 1) as nat) by {
            if acc.contains(x) {
                let i = choose|i: int|
                    0 <= i < prev.len() && parse_usize(trim(prev[i])) == Some((x + 1) as nat);
                assert(pieces[i] == prev[i]);
            } else {
                let k = pieces.len() - 1;
                assert(pieces[k] == last);
            }
        }
        assert forall|i: int| 0 <= i < pieces.len() implies match #[trigger] parse_usize(
            trim(pieces[i]),
        ) {
            Some(n) => 1 <= n <= max_len ==> r.contains((n - 1) as usize),
            None => true,
        } by {
            if i < prev.len() {
                assert(pieces[i] == prev[i]);
                if let Some(n) = parse_usize(trim(prev[i])) {
                    if 1 <= n <= max_len {
                        assert(acc.contains((n - 1) as usize));
                        let j = choose|j: int| 0 <= j < acc.len() && acc[j] == (n - 1) as usize;
                        assert(r[j] == acc[j]);
                    }
                }
            } else {
                assert(pieces[i] == last);
                if let Some(n) = parse_usize(trim(last)) {
                    if 1 <= n <= max_len && !acc.contains((n - 1) as usize) {
                        assert(r[acc.len() as int] == (n - 1) as usize);
                    }
                }
            }
        }
        assert forall|k: int| 0 <= k < r.len() implies (#[trigger] r[k] as nat) < max_len by {
            if k < acc.len() {
                assert(r[k] == acc[k]);
            }
        }
        assert forall|j: int, k: int| 0 <= j < k < r.len() implies r[j] != r[k] by {
            if k == acc.len() {
                assert(r[j] == acc[j]);
                assert(acc.contains(acc[j]));
            } else {
                assert(r[j] == acc[j] && r[k] == acc[k]);
            }
        }
    }
}

fn holds_index(v: &Vec<usize>, x: usize) -> (r: bool)
    ensures
        r == v@.contains(x),
{
    let mut i: usize = 0;
    while i < v.len()
        invariant
            i <= v@.len(),
            forall|k: int| 0 <= k < i ==> #[trigger] v@[k] != x,
        decreases v.len() - i,
    {
        if v[i] == x {
            return true;
        }
        i = i + 1;
    }
    false
}

/// The zero-based, distinct indices that tokens select among `max_len`
/// entries numbered from one; tokens may hold several numbers separated by
/// commas, and anything else is ignored.
pub fn parse_indices(tokens: &[String], max_len: usize) -> (r: Vec<usize>)
    ensures
        r@ == selected_indices(string_texts(tokens@), max_len as nat),
{
    let ghost all = string_texts(tokens@);
    let mut indices: Vec<usize> = Vec::new();
    let mut i: usize = 0;
    while i < tokens.len()
        invariant
            i <= tokens@.len(),
            all == string_texts(tokens@),
            indices@ == collect_indices(comma_pieces(all.subrange(0, i as int)), max_len as nat),
        decreases tokens.len() - i,
    {
        let subs = split_commas(tokens[i].as_str());
        let ghost before = comma_pieces(all.subrange(0, i as int));
        proof {
            let pre = all.subrange(0, i + 1);
            assert(pre.drop_last() == all.subrange(0, i as int));
            assert(pre.last() == tokens@[i as int]@);
        }
        let mut j: usize = 0;
        while j < subs.len()
            invariant
                j <= subs@.len(),
                indices@ == collect_indices(
                    before + string_texts(subs@).subrange(0, j as int),
                    max_len as nat,
                ),
            decreases subs.len() - j,
        {
            let piece = trim_str(subs[j].as_str());
            let ghost prev = before + string_texts(subs@).subrange(0, j as int);
            proof {
                let next = before + string_texts(subs@).subrange(0, j + 1);
                assert(next.drop_last() == prev);
                assert(next.last() == subs@[j as int]@);
            }
            match parse_usize_str(piece) {
                Some(num) => {
                    if num >= 1 && num <= max_len {
                        let idx = num - 1;
                        if !holds_index(&indices, idx) {
                            indices.push(idx);
                        }
                    }
                },
                None => {},
            }
            j = j + 1;
        }
        assert(string_texts(subs@).subrange(0, subs@.len() as int) == string_texts(subs@));
        i = i + 1;
    }
    assert(all.subrange(0, all.len() as int) == all);
    indices
}

/// A command of the wizard while there are targets to clean.
#[derive(Debug)]
pub enum WizardCommand {
    /// Blank input: show the menu again.
    Empty,
    Quit,
    Refresh,
    ShowProtected,
    /// Graceful cleanup of all listed targets.
    Clean,
    /// Immediate SIGKILL cleanup of all listed targets.
    Force,
    /// Add the selected targets to the configuration's whitelist.
    Whitelist(Vec<usize>),
    /// `w` without a valid index.
    WhitelistUsage,
    /// Spare the selected targets in this session.
    Temporary(Vec<usize>),
    /// `t` without a valid index.
    TemporaryUsage,
    /// Bare indices: add the selected targets to the whitelist.
    QuickWhitelist(Vec<usize>),
    /// Anything else.
    Unknown,
}

/// The meaning of a wizard command, with selected indices as sequences.
pub enum CommandView {
    Empty,
    Quit,
    Refresh,
    ShowProtected,
    Clean,
    Force,
    Whitelist(Seq<usize>),
    WhitelistUsage,
    Temporary(Seq<usize>),
    TemporaryUsage,
    QuickWhitelist(Seq<usize>),
    Unknown,
}

impl View for WizardCommand {
    type V = CommandView;

    open spec fn view(&self) -> CommandView {
        match self {
            WizardCommand::Empty => CommandView::Empty,
            WizardCommand::Quit => CommandView::Quit,
            WizardCommand::Refresh => CommandView::Refresh,
            WizardCommand::ShowProtected => CommandView::ShowProtected,
            WizardCommand::Clean => CommandView::Clean,
            WizardCommand::Force => CommandView::Force,
            WizardCommand::Whitelist(v) => CommandView::Whitelist(v@),
            WizardCommand::WhitelistUsage => CommandView::WhitelistUsage,
            WizardCommand::Temporary(v) => CommandView::Temporary(v@),
            WizardCommand::TemporaryUsage => CommandView::TemporaryUsage,
            WizardCommand::QuickWhitelist(v) => CommandView::QuickWhitelist(v@),
            WizardCommand::Unknown => CommandView::Unknown,
        }
    }
}

/// How the wizard reads a line while `count` targets are listed: the first
/// word, lower-cased, names the command; `w` and `t` take indices from the
/// remaining words; bare indices whitelist.
pub open spec fn wizard_command(input: Seq<char>, count: nat) -> CommandView {
    let parts = words(trim(input));
    if parts.len() == 0 {
        CommandView::Empty
    } else {
        let cmd = lowercase(parts[0]);
        if cmd == "q"@ || cmd == "quit"@ || cmd == "exit"@ {
            CommandView::Quit
        } else if cmd == "r"@ || cmd == "refresh"@ {
            CommandView::Refresh
        } else if cmd == "p"@ || cmd == "protected"@ {
            CommandView::ShowProtected
        } else if cmd == "c"@ || cmd == "clean"@ {
            CommandView::Clean
        } else if cmd == "f"@ || cmd == "force"@ {
            CommandView::Force
        } else if cmd == "w"@ || cmd == "whitelist"@ {
            let idx = selected_indices(parts.drop_first(), count);
            if idx.len() == 0 {
                CommandView::WhitelistUsage
            } else {
                CommandView::Whitelist(idx)
            }
        } else if cmd == "t"@ || cmd == "temp"@ {
            let idx = selected_indices(parts.drop_first(), count);
            if idx.len() == 0 {
                CommandView::TemporaryUsage
            } else {
                CommandView::Temporary(idx)
            }
        } else {
            let idx = selected_indices(parts, count);
            if idx.len() == 0 {
                CommandView::Unknown
            } else {
                CommandView::QuickWhitelist(idx)
            }
        }
    }
}

/// Whether a text is one of the given words.
fn is_one_of(s: &str, options: &[&str]) -> (r: bool)
    ensures
        r == exists|i: int| 0 <= i < options@.len() && #[trigger] options@[i]@ == s@,
{
    let mut i: usize = 0;
    while i < options.len()
        invariant
            i <= options@.len(),
            forall|k: int| 0 <= k < i ==> #[trigger] options@[k]@ != s@,
        decreases options.len() - i,
    {
        if str_equal(options[i], s) {
            return true;
        }
        i = i + 1;
    }
    false
}

/// Reads a line of the wizard while `count` targets are listed.
pub fn parse_command(input: &str, count: usize) -> (r: WizardCommand)
    ensures
        r@ == wizard_command(input@, count as nat),
{
    let trimmed = trim_str(input);
    let parts = split_words(trimmed);
    if parts.len() == 0 {
        return WizardCommand::Empty;
    }
    let lowered = to_lowercase(parts[0].as_str());
    let cmd = lowered.as_str();
    assert(cmd@ == lowercase(string_texts(parts@)[0]));
    let mut rest: Vec<String> = Vec::new();
    let mut i: usize = 1;
    while i < parts.len()
        invariant
            1 <= i <= parts@.len(),
            rest@.len() == i - 1,
            forall|k: int| 0 <= k < rest@.len() ==> #[trigger] rest@[k]@ == parts@[k + 1]@,
        decreases parts.len() - i,
    {
        rest.push(parts[i].clone());
        i = i + 1;
    }
    assert(string_texts(rest@) =~= string_texts(parts@).drop_first());
    if is_one_of(cmd, &["q", "quit", "exit"]) {
        WizardCommand::Quit
    } else if is_one_of(cmd, &["r", "refresh"]) {
        WizardCommand::Refresh
    } else if is_one_of(cmd, &["p", "protected"]) {
        WizardCommand::ShowProtected
    } else if is_one_of(cmd, &["c", "clean"]) {
        WizardCommand::Clean
    } else if is_one_of(cmd, &["f", "force"]) {
        WizardCommand::Force
    } else if is_one_of(cmd, &["w", "whitelist"]) {
        let idx = parse_indices(rest.as_slice(), count);
        if idx.len() == 0 {
            WizardCommand::WhitelistUsage
        } else {
            WizardCommand::Whitelist(idx)
        }
    } else if is_one_of(cmd, &["t", "temp"]) {
        let idx = parse_indices(rest.as_slice(), count);
        if idx.len() == 0 {
            WizardCommand::TemporaryUsage
        } else {
            WizardCommand::Temporary(idx)
        }
    } else {
        let idx = parse_indices(parts.as_slice(), count);
        if idx.len() == 0 {
            WizardCommand::Unknown
        } else {
            WizardCommand::QuickWhitelist(idx)
        }
    }
}

/// A command of the wizard when every target is protected.
#[derive(Debug, Clone, Copy, PartialEq, Eq, Structural)]
pub enum IdleCommand {
    ShowProtected,
    Refresh,
    Quit,
    Invalid,
}

/// How the wizard reads a line when there is nothing to clean: the whole
/// line, trimmed and lower-cased, names the command.
pub open spec fn idle_command(input: Seq<char>) -> IdleCommand {
    let cmd = lowercase(trim(input));
    if cmd == "p"@ || cmd == "protected"@ {
        IdleCommand::ShowProtected
    } else if cmd == "r"@ || cmd == "refresh"@ {
        IdleCommand::Refresh
    } else if cmd == "q"@ || cmd == "quit"@ || cmd == "exit"@ {
        IdleCommand::Quit
    } else {
        IdleCommand::Invalid
    }
}

/// Reads a line of the wizard when there is nothing to clean.
pub fn parse_idle_command(input: &str) -> (r: IdleCommand)
    ensures
        r == idle_command(input@),
{
    let lowered = to_lowercase(trim_str(input));
    let cmd = lowered.as_str();
    if is_one_of(cmd, &["p", "protected"]) {
        IdleCommand::ShowProtected
    } else if is_one_of(cmd, &["r", "refresh"]) {
        IdleCommand::Refresh
    } else if is_one_of(cmd, &["q", "quit", "exit"]) {
        IdleCommand::Quit
    } else {
        IdleCommand::Invalid
    }
}

/// Whether an answer to a yes/no question is yes: "y" or "yes", trimmed and
/// lower-cased. Anything else, blank included, is no.
pub open spec fn confirms(input: Seq<char>) -> bool {
    let a = lowercase(trim(input));
    a == "y"@ || a == "yes"@
}

/// Reads the answer to a yes/no question.
pub fn is_confirmation(input: &str) -> (r: bool)
    ensures
        r == confirms(input@),
{
    let lowered = to_lowercase(trim_str(input));
    is_one_of(lowered.as_str(), &["y", "yes"])
}

/// The test for targets that have a bundle identifier.
pub open spec fn has_bundle(targets: Seq<AppTarget>) -> spec_fn(usize) -> bool {
    |i: usize| targets[i as int].bundle_id@.len() > 0
}

/// The test for targets that have none.
pub open spec fn lacks_bundle(targets: Seq<AppTarget>) -> spec_fn(usize) -> bool {
    |i: usize| targets[i as int].bundle_id@.len() == 0
}

/// What a whitelist request adds for the selected targets, in order: the
/// bundle identifier of each target that has one, the name of each that
/// has none.
pub open spec fn whitelist_additions_spec(targets: Seq<AppTarget>, indices: Seq<usize>) -> (
    Seq<Seq<char>>,
    Seq<Seq<char>>,
) {
    (
        indices.filter(has_bundle(targets)).map_values(|i: usize| targets[i as int].bundle_id@),
        indices.filter(lacks_bundle(targets)).map_values(|i: usize| targets[i as int].name@),
    )
}

/// A whitelist request adds one entry per selected target, in order: the
/// bundle identifier, never empty, of each target that has one, and the name
/// of each target that has none.
pub proof fn lemma_one_addition_per_selected_target(targets: Seq<AppTarget>, indices: Seq<usize>)
    ensures
        ({
            let (b, n) = whitelist_additions_spec(targets, indices);
            &&& b.len() + n.len() == indices.len()
            &&& forall|k: int| 0 <= k < b.len() ==> (#[trigger] b[k]).len() > 0
            &&& forall|k: int|
                0 <= k < b.len() ==> exists|i: int|
                    0 <= i < indices.len() && targets[indices[i] as int].bundle_id@ == #[trigger] b[k]
            &&& forall|k: int|
                0 <= k < n.len() ==> exists|i: int|
                    0 <= i < indices.len() && targets[indices[i] as int].bundle_id@.len() == 0
                        && targets[indices[i] as int].name@ == #[trigger] n[k]
        }),
    decreases indices.len(),
{
    if indices.len() > 0 {
        let prev = indices.drop_last();
        let x = indices.last();
        lemma_one_addition_per_selected_target(targets, prev);
        reveal_with_fuel(Seq::filter, 1);
        assert(prev.push(x) == indices);
        let (b0, n0) = whitelist_additions_spec(targets, prev);
        let (b, n) = whitelist_additions_spec(targets, indices);
        assert forall|i: int| 0 <= i < prev.len() implies #[trigger] prev[i] == indices[i] by {}
        if targets[x as int].bundle_id@.len() > 0 {
            assert(b =~= b0.push(targets[x as int].bundle_id@));
            assert(n =~= n0);
            assert forall|k: int| 0 <= k < b.len() implies exists|i: int|
                0 <= i < indices.len() && targets[indices[i] as int].bundle_id@ == #[trigger] b[k] by {
                if k == b0.len() {
                    assert(indices[indices.len() - 1] == x);
                } else {
                    assert(b[k] == b0[k]);
                    let i = choose|i: int|
                        0 <= i < prev.len() && targets[prev[i] as int].bundle_id@ == b0[k];
                    assert(prev[i] == indices[i]);
                }
            }
            assert forall|k: int| 0 <= k < n.len() implies exists|i: int|
                0 <= i < indices.len() && targets[indices[i] as int].bundle_id@.len() == 0
                    && targets[indices[i] as int].name@ == #[trigger] n[k] by {
                let i = choose|i: int|
                    0 <= i < prev.len() && targets[prev[i] as int].bundle_id@.len() == 0
                        && targets[prev[i] as int].name@ == n0[k];
                assert(prev[i] == indices[i]);
            }
            assert forall|k: int| 0 <= k < b.len() implies (#[trigger] b[k]).len() > 0 by {
                if k < b0.len() {
                    assert(b[k] == b0[k]);
                }
            }
        } else {
            assert(n =~= n0.push(targets[x as int].name@));
            assert(b =~= b0);
            assert forall|k: int| 0 <= k < n.len() implies exists|i: int|
                0 <= i < indices.len() && targets[indices[i] as int].bundle_id@.len() == 0
                    && targets[indices[i] as int].name@ == #[trigger] n[k] by {
                if k == n0.len() {
                    assert(indices[indices.len() - 1] == x);
                } else {
                    assert(n[k] == n0[k]);
                    let i = choose|i: int|
                        0 <= i < prev.len() && targets[prev[i] as int].bundle_id@.len() == 0
                            && targets[prev[i] as int].name@ == n0[k];
                    assert(prev[i] == indices[i]);
                }
            }
            assert forall|k: int| 0 <= k < b.len() implies exists|i: int|
                0 <= i < indices.len() && targets[indices[i] as int].bundle_id@ == #[trigger] b[k] by {
                let i = choose|i: int|
                    0 <= i < prev.len() && targets[prev[i] as int].bundle_id@ == b0[k];
                assert(prev[i] == indices[i]);
            }
        }
    } else {
        assert(indices.filter(has_bundle(targets)) =~= Seq::<usize>::empty());
        assert(indices.filter(lacks_bundle(targets)) =~= Seq::<usize>::empty());
    }
}

/// The bundle identifiers and names a whitelist request adds for the
/// selected targets.
pub fn whitelist_additions(targets: &[AppTarget], indices: &[usize]) -> (r: (
    Vec<String>,
    Vec<String>,
))
    requires
        forall|k: int| 0 <= k < indices@.len() ==> #[trigger] indices@[k] < targets@.len(),
    ensures
        (string_texts(r.0@), string_texts(r.1@)) == whitelist_additions_spec(targets@, indices@),
{
    let mut bundles: Vec<String> = Vec::new();
    let mut names: Vec<String> = Vec::new();
    let mut i: usize = 0;
    while i < indices.len()
        invariant
            i <= indices@.len(),
            forall|k: int| 0 <= k < indices@.len() ==> #[trigger] indices@[k] < targets@.len(),
            (string_texts(bundles@), string_texts(names@)) == whitelist_additions_spec(
                targets@,
                indices@.subrange(0, i as int),
            ),
        decreases indices.len() - i,
    {
        let idx = indices[i];
        let target = &targets[idx];
        proof {
            reveal_with_fuel(Seq::filter, 1);
            let pre = indices@.subrange(0, i + 1);
            assert(pre.drop_last() == indices@.subrange(0, i as int));
            assert(pre.last() == idx);
        }
        if target.bundle_id.as_str().unicode_len() > 0 {
            bundles.push(target.bundle_id.clone());
            assert(string_texts(bundles@) =~= indices@.subrange(0, i as int).filter(
                has_bundle(targets@),
            ).map_values(|i: usize| targets@[i as int].bundle_id@).push(target.bundle_id@));
        } else {
            names.push(target.name.clone());
            assert(string_texts(names@) =~= indices@.subrange(0, i as int).filter(
                lacks_bundle(targets@),
            ).map_values(|i: usize| targets@[i as int].name@).push(target.name@));
        }
        i = i + 1;
    }
    assert(indices@.subrange(0, indices@.len() as int) == indices@);
    (bundles, names)
}

/// What a temporary skip (`t`) keeps for the rest of the session: the
/// bundle identifier of each selected target, in order. Passed on as
/// command-line keeps, they protect those targets whatever the configuration
/// says (see `lemma_kept_target_protected`).
pub fn temporary_keeps(targets: &[AppTarget], indices: &[usize]) -> (r: Vec<String>)
    requires
        forall|k: int| 0 <= k < indices@.len() ==> #[trigger] indices@[k] < targets@.len(),
    ensures
        string_texts(r@) == indices@.map_values(|i: usize| targets@[i as int].bundle_id@),
{
    let mut keeps: Vec<String> = Vec::new();
    let mut i: usize = 0;
    while i < indices.len()
        invariant
            i <= indices@.len(),
            forall|k: int| 0 <= k < indices@.len() ==> #[trigger] indices@[k] < targets@.len(),
            string_texts(keeps@) == indices@.subrange(0, i as int).map_values(
                |i: usize| targets@[i as int].bundle_id@,
            ),
        decreases indices.len() - i,
    {
        let idx = indices[i];
        let ghost before = keeps@;
        keeps.push(targets[idx].bundle_id.clone());
        assert(indices@.subrange(0, i + 1) == indices@.subrange(0, i as int).push(idx));
        assert(string_texts(keeps@) =~= string_texts(before).push(targets@[idx as int].bundle_id@));
        assert(string_texts(keeps@) =~= indices@.subrange(0, i + 1).map_values(
            |i: usize| targets@[i as int].bundle_id@,
        ));
        i = i + 1;
    }
    assert(indices@.subrange(0, indices@.len() as int) == indices@);
    keeps
}

} // verus!
