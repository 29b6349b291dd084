//! The four-tier whitelist: rules, configuration and protection decisions.

use vstd::prelude::*;
use vstd::string::*;

use std::collections::HashSet;

use crate::app::AppTarget;
use crate::i18n::{tier_identifier, tier_label, Language};
use crate::signal::is_finder_identifier;
use crate::text::{
    ascii_lower, ascii_lowercase, decimal_text, is_space, trim_end, trim_start, eq_ignore_ascii_case, push_decimal_i32, str_contains_char, str_eq_ignore_ascii_case,
    str_equal, trim, trim_str,
};

verus! {

/// The protection tiers, from the operating-system core to user choices.
#[derive(Debug, Clone, Copy, PartialEq, Eq, Structural)]
pub enum WhitelistTier {
    /// L1: processes the operating system itself depends on.
    L1CoreOs,
    /// L2: the caller's session and common terminals and editors.
    L2ContextShell,
    /// L3: input methods, launchers, window managers.
    L3PersistentUtilities,
    /// L4: entries of the user's configuration file.
    L4UserConfig,
    /// L4: entries given on the command line for one run.
    L4CliOverride,
}

impl WhitelistTier {
    /// The Simplified Chinese label, the historical default.
    pub fn label(&self) -> (r: &'static str)
        ensures
            r@ == tier_label(*self, Language::ZhHans),
    {
        self.localized_label(Language::ZhHans)
    }
}

/// Why a target is protected: the rule that matched it.
#[derive(Debug, Clone, Copy, PartialEq, Eq, Structural)]
pub enum ProtectionReason {
    CallerLineage,
    CoreBundle,
    CoreName,
    ShellBundle,
    ShellName,
    UtilityBundle,
    UtilityName,
    CliKeep,
    UserBundle,
    UserName,
}

/// The tier of each kind of rule.
pub open spec fn reason_tier(r: ProtectionReason) -> WhitelistTier {
    match r {
        ProtectionReason::CallerLineage => WhitelistTier::L2ContextShell,
        ProtectionReason::CoreBundle => WhitelistTier::L1CoreOs,
        ProtectionReason::CoreName => WhitelistTier::L1CoreOs,
        ProtectionReason::ShellBundle => WhitelistTier::L2ContextShell,
        ProtectionReason::ShellName => WhitelistTier::L2ContextShell,
        ProtectionReason::UtilityBundle => WhitelistTier::L3PersistentUtilities,
        ProtectionReason::UtilityName => WhitelistTier::L3PersistentUtilities,
        ProtectionReason::CliKeep => WhitelistTier::L4CliOverride,
        ProtectionReason::UserBundle => WhitelistTier::L4UserConfig,
        ProtectionReason::UserName => WhitelistTier::L4UserConfig,
    }
}

/// The outcome of a protection check: tier, localized tier label, the
/// rule that matched in words, and the tier's machine identifier.
#[derive(Debug)]
pub struct WhitelistMatch {
    pub tier: WhitelistTier,
    pub tier_label: String,
    pub matched_rule: String,
    pub tier_id: String,
}

/// The contents of a `WhitelistMatch`.
pub struct MatchView {
    pub tier: WhitelistTier,
    pub tier_label: Seq<char>,
    pub matched_rule: Seq<char>,
    pub tier_id: Seq<char>,
}

impl View for WhitelistMatch {
    type V = MatchView;

    open spec fn view(&self) -> MatchView {
        MatchView {
            tier: self.tier,
            tier_label: self.tier_label@,
            matched_rule: self.matched_rule@,
            tier_id: self.tier_id@,
        }
    }
}

/// The contents of an optional match.
pub open spec fn match_view(m: Option<WhitelistMatch>) -> Option<MatchView> {
    match m {
        Some(x) => Some(x@),
        None => None,
    }
}

/// The identifier that an unspecified tier carries in stored results.
pub fn default_tier_id() -> (r: String)
    ensures
        r@ == "unknown"@,
{
    String::from_str("unknown")
}

/// The texts of a sequence of strings, in order.
pub open spec fn texts(v: Seq<String>) -> Seq<Seq<char>> {
    v.map_values(|s: String| s@)
}

/// The texts of a vector of strings, as a set.
pub open spec fn text_set(v: Seq<String>) -> Set<Seq<char>> {
    texts(v).to_set()
}

/// The trimmed texts of a vector of strings, as a set.
pub open spec fn trimmed_text_set(v: Seq<String>) -> Set<Seq<char>> {
    Set::new(|t: Seq<char>| exists|i: int| 0 <= i < v.len() && trim(#[trigger] v[i]@) == t)
}

/// Whether a set holds a text equal to `t` up to ASCII case.
pub open spec fn has_ignoring_case(s: Set<Seq<char>>, t: Seq<char>) -> bool {
    exists|x: Seq<char>| #[trigger] s.contains(x) && eq_ignore_ascii_case(x, t)
}

/// Whether an identifier, trimmed, names a critical system daemon (ASCII
/// case ignored). Finder is not one.
pub open spec fn is_critical_daemon(s: Seq<char>) -> bool {
    let t = trim(s);
    ||| eq_ignore_ascii_case("com.apple.dock"@, t)
    ||| eq_ignore_ascii_case("com.apple.WindowManager"@, t)
    ||| eq_ignore_ascii_case("com.apple.systemuiserver"@, t)
    ||| eq_ignore_ascii_case("com.apple.controlcenter"@, t)
    ||| eq_ignore_ascii_case("com.apple.notificationcenterui"@, t)
    ||| eq_ignore_ascii_case("com.apple.loginwindow"@, t)
    ||| eq_ignore_ascii_case("Dock"@, t)
    ||| eq_ignore_ascii_case("WindowServer"@, t)
    ||| eq_ignore_ascii_case("SystemUIServer"@, t)
    ||| eq_ignore_ascii_case("ControlCenter"@, t)
    ||| eq_ignore_ascii_case("NotificationCenter"@, t)
    ||| eq_ignore_ascii_case("loginwindow"@, t)
}

/// Whether an identifier, trimmed, names a member of the core tier (ASCII
/// case ignored): the critical daemons and Finder.
pub open spec fn is_core_os(s: Seq<char>) -> bool {
    let t = trim(s);
    ||| eq_ignore_ascii_case("com.apple.finder"@, t)
    ||| eq_ignore_ascii_case("com.apple.dock"@, t)
    ||| eq_ignore_ascii_case("com.apple.WindowManager"@, t)
    ||| eq_ignore_ascii_case("com.apple.systemuiserver"@, t)
    ||| eq_ignore_ascii_case("com.apple.controlcenter"@, t)
    ||| eq_ignore_ascii_case("com.apple.notificationcenterui"@, t)
    ||| eq_ignore_ascii_case("com.apple.loginwindow"@, t)
    ||| eq_ignore_ascii_case("Finder"@, t)
    ||| eq_ignore_ascii_case("访达"@, t)
    ||| eq_ignore_ascii_case("Dock"@, t)
    ||| eq_ignore_ascii_case("WindowServer"@, t)
    ||| eq_ignore_ascii_case("SystemUIServer"@, t)
    ||| eq_ignore_ascii_case("ControlCenter"@, t)
    ||| eq_ignore_ascii_case("NotificationCenter"@, t)
    ||| eq_ignore_ascii_case("loginwindow"@, t)
}

/// The preset bundle identifiers of the core tier.
pub open spec fn core_bundle_presets() -> Set<Seq<char>> {
    seq!["com.apple.finder"@, "com.apple.dock"@, "com.apple.WindowManager"@, "com.apple.systemuiserver"@, "com.apple.controlcenter"@, "com.apple.notificationcenterui"@, "com.apple.loginwindow"@].to_set()
}

/// The preset application names of the core tier.
pub open spec fn core_name_presets() -> Set<Seq<char>> {
    seq!["Finder"@, "访达"@, "Dock"@, "WindowServer"@].to_set()
}

/// The preset bundle identifiers of terminals and editors.
pub open spec fn shell_bundle_presets() -> Set<Seq<char>> {
    seq!["com.apple.Terminal"@, "com.googlecode.iterm2"@, "com.mitchellh.ghostty"@, "io.alacritty"@, "net.kovidgoyal.kitty"@, "org.wezfurlong.wezterm"@, "com.github.wez.wezterm"@, "dev.warp.Warp-Stable"@, "com.microsoft.VSCode"@, "com.sublimetext.4"@, "com.jetbrains.intellij"@].to_set()
}

/// The preset application names of terminals and editors.
pub open spec fn shell_name_presets() -> Set<Seq<char>> {
    seq!["Terminal"@, "终端"@, "iTerm2"@, "Ghostty"@, "Alacritty"@, "kitty"@, "wezterm-gui"@, "Warp"@, "Code"@, "Visual Studio Code"@].to_set()
}

/// The preset bundle identifiers of persistent utilities.
pub open spec fn utility_bundle_presets() -> Set<Seq<char>> {
    seq!["com.raycast.macos"@, "com.runningwithcrayons.Alfred"@, "com.knollsoft.Rectangle"@, "com.lwouis.alt-tab-macos"@, "com.sogou.inputmethod.sogou"@, "im.rime.inputmethod.Squirrel"@, "com.apple.inputmethod.SCIM"@, "com.exelban.Stats"@, "com.surteesstudios.Bartender"@].to_set()
}

/// The preset application names of persistent utilities.
pub open spec fn utility_name_presets() -> Set<Seq<char>> {
    seq!["Raycast"@, "Alfred"@, "Rectangle"@, "AltTab"@, "Stats"@, "Bartender"@].to_set()
}


/// The rules of a whitelist manager, tier by tier.
pub struct WhitelistRules {
    /// The caller's own process and its ancestors.
    pub caller_pids: Set<i32>,
    pub core_bundle_ids: Set<Seq<char>>,
    pub core_names: Set<Seq<char>>,
    pub shell_bundle_ids: Set<Seq<char>>,
    pub shell_names: Set<Seq<char>>,
    pub utility_bundle_ids: Set<Seq<char>>,
    pub utility_names: Set<Seq<char>>,
    pub user_bundle_ids: Set<Seq<char>>,
    pub user_names: Set<Seq<char>>,
    pub cli_keep_rules: Set<Seq<char>>,
    /// Rules the user removed, presets included.
    pub disabled_rules: Set<Seq<char>>,
    /// Where the configuration was loaded from, if from a file.
    pub loaded_config_path: Option<Seq<char>>,
}

/// The text of an optional string.
pub open spec fn opt_text(s: Option<String>) -> Option<Seq<char>> {
    match s {
        Some(x) => Some(x@),
        None => None,
    }
}

/// Whether a command-line (or temporary) keep names the target, by name or
/// bundle identifier, ASCII case ignored.
pub open spec fn keep_matches(r: WhitelistRules, app: AppTarget) -> bool {
    has_ignoring_case(r.cli_keep_rules, app.name@) || has_ignoring_case(
        r.cli_keep_rules,
        app.bundle_id@,
    )
}

/// Which rule, if any, protects a target. The caller's lineage comes first;
/// then a disabled rule lifts protection unless the target is a critical
/// daemon, or a command-line keep names it, which then protects it; then the
/// core tier (its presets, and every critical daemon by bundle identifier or
/// name), the shell and utility presets, command-line keeps and the user's
/// configuration, in that order.
pub open spec fn protection_reason(r: WhitelistRules, app: AppTarget) -> Option<ProtectionReason> {
    let name = app.name@;
    let bundle = app.bundle_id@;
    if r.caller_pids.contains(app.pid) {
        Some(ProtectionReason::CallerLineage)
    } else if !is_critical_daemon(bundle) && !is_critical_daemon(name) && (has_ignoring_case(
        r.disabled_rules,
        name,
    ) || has_ignoring_case(r.disabled_rules, bundle)) {
        if keep_matches(r, app) {
            Some(ProtectionReason::CliKeep)
        } else {
            None
        }
    } else if r.core_bundle_ids.contains(bundle) || is_critical_daemon(bundle) {
        Some(ProtectionReason::CoreBundle)
    } else if r.core_names.contains(name) || is_critical_daemon(name) {
        Some(ProtectionReason::CoreName)
    } else if r.shell_bundle_ids.contains(bundle) {
        Some(ProtectionReason::ShellBundle)
    } else if r.shell_names.contains(name) {
        Some(ProtectionReason::ShellName)
    } else if r.utility_bundle_ids.contains(bundle) {
        Some(ProtectionReason::UtilityBundle)
    } else if r.utility_names.contains(name) {
        Some(ProtectionReason::UtilityName)
    } else if keep_matches(r, app) {
        Some(ProtectionReason::CliKeep)
    } else if r.user_bundle_ids.contains(bundle) {
        Some(ProtectionReason::UserBundle)
    } else if has_ignoring_case(r.user_names, name) {
        Some(ProtectionReason::UserName)
    } else {
        None
    }
}

/// The words that describe a matched rule, in Chinese for both Chinese
/// scripts and in English otherwise.
pub open spec fn rule_text(reason: ProtectionReason, app: AppTarget, lang: Language) -> Seq<char> {
    let zh = lang == Language::ZhHans || lang == Language::ZhHant;
    let name = app.name@;
    let bundle = app.bundle_id@;
    match reason {
        ProtectionReason::CallerLineage => if zh {
            "进程 PID 处于当前调用者会话链路 ("@ + decimal_text(app.pid as int) + ")"@
        } else {
            "PID "@ + decimal_text(app.pid as int) + " in caller session lineage"@
        },
        ProtectionReason::CoreBundle => if zh {
            "系统核心包名: "@ + bundle
        } else {
            "Core OS bundle ID: "@ + bundle
        },
        ProtectionReason::CoreName => if zh {
            "系统核心应用名: "@ + name
        } else {
            "Core OS app name: "@ + name
        },
        ProtectionReason::ShellBundle => if zh {
            "终端/IDE 包名: "@ + bundle
        } else {
            "Terminal/IDE bundle ID: "@ + bundle
        },
        ProtectionReason::ShellName => if zh {
            "终端/IDE 应用名: "@ + name
        } else {
            "Terminal/IDE app name: "@ + name
        },
        ProtectionReason::UtilityBundle => if zh {
            "常驻基础设施包名: "@ + bundle
        } else {
            "Persistent utility bundle ID: "@ + bundle
        },
        ProtectionReason::UtilityName => if zh {
            "常驻基础设施应用名: "@ + name
        } else {
            "Persistent utility app name: "@ + name
        },
        ProtectionReason::CliKeep => if zh {
            "命令行 -k 参数命中: "@ + name + " / "@ + bundle
        } else {
            "CLI -k keep rule matched: "@ + name + " / "@ + bundle
        },
        ProtectionReason::UserBundle => if zh {
            "用户配置包名: "@ + bundle
        } else {
            "User config bundle ID: "@ + bundle
        },
        ProtectionReason::UserName => if zh {
            "用户配置应用名: "@ + name
        } else {
            "User config app name: "@ + name
        },
    }
}

/// The match that a protection check reports for a target in a language.
pub open spec fn protection_match(r: WhitelistRules, app: AppTarget, lang: Language) -> Option<
    MatchView,
> {
    match protection_reason(r, app) {
        Some(reason) => Some(
            MatchView {
                tier: reason_tier(reason),
                tier_label: tier_label(reason_tier(reason), lang),
                matched_rule: rule_text(reason, app, lang),
                tier_id: tier_identifier(reason_tier(reason)),
            },
        ),
        None => None,
    }
}

proof fn lemma_text_set(v: Seq<String>)
    ensures
        forall|t: Seq<char>| #[trigger]
            text_set(v).contains(t) <==> exists|i: int| 0 <= i < v.len() && #[trigger] v[i]@ == t,
{
    assert forall|t: Seq<char>| #[trigger]
        text_set(v).contains(t) <==> exists|i: int| 0 <= i < v.len() && #[trigger] v[i]@ == t by {
        if text_set(v).contains(t) {
            let i = choose|i: int| 0 <= i < texts(v).len() && texts(v)[i] == t;
            assert(v[i]@ == t);
        }
        if exists|i: int| 0 <= i < v.len() && #[trigger] v[i]@ == t {
            let i = choose|i: int| 0 <= i < v.len() && #[trigger] v[i]@ == t;
            assert(texts(v)[i] == t);
        }
    }
}

/// Whether a vector of strings holds `t` exactly.
fn holds_text(v: &Vec<String>, t: &String) -> (r: bool)
    ensures
        r == text_set(v@).contains(t@),
{
    let mut i: usize = 0;
    while i < v.len()
        invariant
            i <= v@.len(),
            forall|k: int| 0 <= k < i ==> #[trigger] v@[k]@ != t@,
        decreases v.len() - i,
    {
        if v[i] == *t {
            proof {
                lemma_text_set(v@);
            }
            assert(v@[i as int]@ == t@);
            return true;
        }
        i = i + 1;
    }
    proof {
        lemma_text_set(v@);
    }
    false
}

/// Whether a vector of strings holds a text equal to `t` up to ASCII case.
fn holds_text_ignoring_case(v: &Vec<String>, t: &str) -> (r: bool)
    ensures
        r == has_ignoring_case(text_set(v@), t@),
{
    let mut i: usize = 0;
    while i < v.len()
        invariant
            i <= v@.len(),
            forall|k: int| 0 <= k < i ==> !eq_ignore_ascii_case(#[trigger] v@[k]@, t@),
        decreases v.len() - i,
    {
        if str_eq_ignore_ascii_case(v[i].as_str(), t) {
            proof {
                lemma_text_set(v@);
            }
            assert(text_set(v@).contains(v@[i as int]@));
            return true;
        }
        i = i + 1;
    }
    proof {
        lemma_text_set(v@);
    }
    assert forall|x: Seq<char>| #[trigger] text_set(v@).contains(x) implies !eq_ignore_ascii_case(
        x,
        t@,
    ) by {
        let k = choose|k: int| 0 <= k < v@.len() && #[trigger] v@[k]@ == x;
        assert(!eq_ignore_ascii_case(v@[k]@, t@));
    }
    false
}

proof fn lemma_exact_implies_ignoring_case(s: Set<Seq<char>>, t: Seq<char>)
    ensures
        s.contains(t) ==> has_ignoring_case(s, t),
{
    if s.contains(t) {
        assert(eq_ignore_ascii_case(t, t));
    }
}

/// The set of the PIDs of a list.
fn pid_set(pids: &Vec<i32>) -> (r: HashSet<i32>)
    ensures
        r@ == pids@.to_set(),
{
    broadcast use vstd::std_specs::hash::group_hash_axioms;

    let mut set: HashSet<i32> = HashSet::new();
    let mut i: usize = 0;
    while i < pids.len()
        invariant
            i <= pids@.len(),
            set@ == pids@.subrange(0, i as int).to_set(),
        decreases pids.len() - i,
    {
        set.insert(pids[i]);
        proof {
            pids@.subrange(0, i as int).lemma_push_to_set_commute(pids@[i as int]);
        }
        assert(pids@.subrange(0, i + 1) == pids@.subrange(0, i as int).push(pids@[i as int]));
        i = i + 1;
    }
    assert(pids@.subrange(0, pids@.len() as int) == pids@);
    set
}

/// The trimmed copies of a vector of strings.
fn trimmed_copies(v: &[String]) -> (r: Vec<String>)
    ensures
        text_set(r@) == trimmed_text_set(v@),
{
    let mut out: Vec<String> = Vec::new();
    let mut i: usize = 0;
    while i < v.len()
        invariant
            i <= v@.len(),
            out@.len() == i,
            forall|k: int| 0 <= k < i ==> #[trigger] out@[k]@ == trim(v@[k]@),
        decreases v.len() - i,
    {
        let t = trim_str(v[i].as_str());
        out.push(String::from_str(t));
        i = i + 1;
    }
    proof {
        lemma_text_set(out@);
    }
    assert forall|t: Seq<char>| text_set(out@).contains(t) <==> trimmed_text_set(v@).contains(t) by {
        if text_set(out@).contains(t) {
            let k = choose|k: int| 0 <= k < out@.len() && #[trigger] out@[k]@ == t;
            assert(trim(v@[k]@) == t);
        }
        if trimmed_text_set(v@).contains(t) {
            let k = choose|k: int| 0 <= k < v@.len() && trim(#[trigger] v@[k]@) == t;
            assert(out@[k]@ == t);
        }
    }
    assert(text_set(out@) =~= trimmed_text_set(v@));
    out
}

fn core_bundle_preset_list() -> (v: Vec<String>)
    ensures
        text_set(v@) == core_bundle_presets(),
{
    let mut v: Vec<String> = Vec::new();
    v.push(String::from_str("com.apple.finder"));
    v.push(String::from_str("com.apple.dock"));
    v.push(String::from_str("com.apple.WindowManager"));
    v.push(String::from_str("com.apple.systemuiserver"));
    v.push(String::from_str("com.apple.controlcenter"));
    v.push(String::from_str("com.apple.notificationcenterui"));
    v.push(String::from_str("com.apple.loginwindow"));
    assert(texts(v@) =~= seq!["com.apple.finder"@, "com.apple.dock"@, "com.apple.WindowManager"@, "com.apple.systemuiserver"@, "com.apple.controlcenter"@, "com.apple.notificationcenterui"@, "com.apple.loginwindow"@]);
    v
}

fn core_name_preset_list() -> (v: Vec<String>)
    ensures
        text_set(v@) == core_name_presets(),
{
    let mut v: Vec<String> = Vec::new();
    v.push(String::from_str("Finder"));
    v.push(String::from_str("访达"));
    v.push(String::from_str("Dock"));
    v.push(String::from_str("WindowServer"));
    assert(texts(v@) =~= seq!["Finder"@, "访达"@, "Dock"@, "WindowServer"@]);
    v
}

fn shell_bundle_preset_list() -> (v: Vec<String>)
    ensures
        text_set(v@) == shell_bundle_presets(),
{
    let mut v: Vec<String> = Vec::new();
    v.push(String::from_str("com.apple.Terminal"));
    v.push(String::from_str("com.googlecode.iterm2"));
    v.push(String::from_str("com.mitchellh.ghostty"));
    v.push(String::from_str("io.alacritty"));
    v.push(String::from_str("net.kovidgoyal.kitty"));
    v.push(String::from_str("org.wezfurlong.wezterm"));
    v.push(String::from_str("com.github.wez.wezterm"));
    v.push(String::from_str("dev.warp.Warp-Stable"));
    v.push(String::from_str("com.microsoft.VSCode"));
    v.push(String::from_str("com.sublimetext.4"));
    v.push(String::from_str("com.jetbrains.intellij"));
    assert(texts(v@) =~= seq!["com.apple.Terminal"@, "com.googlecode.iterm2"@, "com.mitchellh.ghostty"@, "io.alacritty"@, "net.kovidgoyal.kitty"@, "org.wezfurlong.wezterm"@, "com.github.wez.wezterm"@, "dev.warp.Warp-Stable"@, "com.microsoft.VSCode"@, "com.sublimetext.4"@, "com.jetbrains.intellij"@]);
    v
}

fn shell_name_preset_list() -> (v: Vec<String>)
    ensures
        text_set(v@) == shell_name_presets(),
{
    let mut v: Vec<String> = Vec::new();
    v.push(String::from_str("Terminal"));
    v.push(String::from_str("终端"));
    v.push(String::from_str("iTerm2"));
    v.push(String::from_str("Ghostty"));
    v.push(String::from_str("Alacritty"));
    v.push(String::from_str("kitty"));
    v.push(String::from_str("wezterm-gui"));
    v.push(String::from_str("Warp"));
    v.push(String::from_str("Code"));
    v.push(String::from_str("Visual Studio Code"));
    assert(texts(v@) =~= seq!["Terminal"@, "终端"@, "iTerm2"@, "Ghostty"@, "Alacritty"@, "kitty"@, "wezterm-gui"@, "Warp"@, "Code"@, "Visual Studio Code"@]);
    v
}

fn utility_bundle_preset_list() -> (v: Vec<String>)
    ensures
        text_set(v@) == utility_bundle_presets(),
{
    let mut v: Vec<String> = Vec::new();
    v.push(String::from_str("com.raycast.macos"));
    v.push(String::from_str("com.runningwithcrayons.Alfred"));
    v.push(String::from_str("com.knollsoft.Rectangle"));
    v.push(String::from_str("com.lwouis.alt-tab-macos"));
    v.push(String::from_str("com.sogou.inputmethod.sogou"));
    v.push(String::from_str("im.rime.inputmethod.Squirrel"));
    v.push(String::from_str("com.apple.inputmethod.SCIM"));
    v.push(String::from_str("com.exelban.Stats"));
    v.push(String::from_str("com.surteesstudios.Bartender"));
    assert(texts(v@) =~= seq!["com.raycast.macos"@, "com.runningwithcrayons.Alfred"@, "com.knollsoft.Rectangle"@, "com.lwouis.alt-tab-macos"@, "com.sogou.inputmethod.sogou"@, "im.rime.inputmethod.Squirrel"@, "com.apple.inputmethod.SCIM"@, "com.exelban.Stats"@, "com.surteesstudios.Bartender"@]);
    v
}

fn utility_name_preset_list() -> (v: Vec<String>)
    ensures
        text_set(v@) == utility_name_presets(),
{
    let mut v: Vec<String> = Vec::new();
    v.push(String::from_str("Raycast"));
    v.push(String::from_str("Alfred"));
    v.push(String::from_str("Rectangle"));
    v.push(String::from_str("AltTab"));
    v.push(String::from_str("Stats"));
    v.push(String::from_str("Bartender"));
    assert(texts(v@) =~= seq!["Raycast"@, "Alfred"@, "Rectangle"@, "AltTab"@, "Stats"@, "Bartender"@]);
    v
}


/// Tests an identifier, trimmed and ignoring ASCII case, against a list.
fn matches_any(t: &str, list: &[&str]) -> (r: bool)
    ensures
        r == exists|i: int| 0 <= i < list@.len() && eq_ignore_ascii_case(#[trigger] list@[i]@, t@),
{
    let mut i: usize = 0;
    while i < list.len()
        invariant
            i <= list@.len(),
            forall|k: int| 0 <= k < i ==> !eq_ignore_ascii_case(#[trigger] list@[k]@, t@),
        decreases list.len() - i,
    {
        if str_eq_ignore_ascii_case(list[i], t) {
            return true;
        }
        i = i + 1;
    }
    false
}

/// The user's configuration file: general settings and whitelist entries.
#[derive(Debug)]
pub struct TaskCleanerConfig {
    pub general: GeneralConfig,
    pub whitelist: WhitelistSection,
}

/// General settings: the grace period before SIGKILL, whether runs are
/// previews by default, and the preferred language code.
#[derive(Debug)]
pub struct GeneralConfig {
    pub grace_period_ms: u64,
    pub default_dry_run: bool,
    pub language: Option<String>,
}

/// Whitelist entries by bundle identifier and by name, and removed rules.
#[derive(Debug)]
pub struct WhitelistSection {
    pub bundle_ids: Vec<String>,
    pub names: Vec<String>,
    pub disabled_rules: Vec<String>,
}

/// The grace period used when the configuration names none: 400 ms.
pub fn default_grace_period() -> (r: u64)
    ensures
        r == 400,
{
    400
}

/// Whether runs are previews when the configuration says nothing: yes.
pub fn default_dry_run() -> (r: bool)
    ensures
        r,
{
    true
}

impl Default for GeneralConfig {
    fn default() -> (r: Self)
        ensures
            r.grace_period_ms == 400,
            r.default_dry_run,
            r.language is None,
    {
        GeneralConfig {
            grace_period_ms: default_grace_period(),
            default_dry_run: default_dry_run(),
            language: None,
        }
    }
}

impl Default for WhitelistSection {
    fn default() -> (r: Self)
        ensures
            r.bundle_ids@.len() == 0,
            r.names@.len() == 0,
            r.disabled_rules@.len() == 0,
    {
        WhitelistSection { bundle_ids: Vec::new(), names: Vec::new(), disabled_rules: Vec::new() }
    }
}

impl Default for TaskCleanerConfig {
    fn default() -> (r: Self)
        ensures
            r.general.grace_period_ms == 400,
            r.general.default_dry_run,
            r.general.language is None,
            r.whitelist.bundle_ids@.len() == 0,
            r.whitelist.names@.len() == 0,
            r.whitelist.disabled_rules@.len() == 0,
    {
        TaskCleanerConfig { general: GeneralConfig::default(), whitelist: WhitelistSection::default() }
    }
}

/// The whitelist matrix: the presets of the first three tiers, the caller's
/// process lineage, the user's entries, command-line keeps and removed rules.
pub struct WhitelistManager {
    l1_bundle_ids: Vec<String>,
    l1_names: Vec<String>,
    l2_pids: HashSet<i32>,
    l2_bundle_ids: Vec<String>,
    l2_names: Vec<String>,
    l3_bundle_ids: Vec<String>,
    l3_names: Vec<String>,
    l4_user_bundle_ids: Vec<String>,
    l4_user_names: Vec<String>,
    cli_keep_rules: Vec<String>,
    disabled_rules: Vec<String>,
    pub loaded_config_path: Option<String>,
}

impl View for WhitelistManager {
    type V = WhitelistRules;

    closed spec fn view(&self) -> WhitelistRules {
        WhitelistRules {
            caller_pids: self.l2_pids@,
            core_bundle_ids: text_set(self.l1_bundle_ids@),
            core_names: text_set(self.l1_names@),
            shell_bundle_ids: text_set(self.l2_bundle_ids@),
            shell_names: text_set(self.l2_names@),
            utility_bundle_ids: text_set(self.l3_bundle_ids@),
            utility_names: text_set(self.l3_names@),
            user_bundle_ids: text_set(self.l4_user_bundle_ids@),
            user_names: text_set(self.l4_user_names@),
            cli_keep_rules: text_set(self.cli_keep_rules@),
            disabled_rules: text_set(self.disabled_rules@),
            loaded_config_path: opt_text(self.loaded_config_path),
        }
    }
}

/// The rules a manager holds when built from a configuration, the caller's
/// lineage and command-line keeps: presets for the first three tiers and the
/// trimmed entries for the rest.
pub open spec fn rules_from(
    config: TaskCleanerConfig,
    loaded_config_path: Option<String>,
    caller_lineage: Seq<i32>,
    cli_keeps: Seq<String>,
) -> WhitelistRules {
    WhitelistRules {
        caller_pids: caller_lineage.to_set(),
        core_bundle_ids: core_bundle_presets(),
        core_names: core_name_presets(),
        shell_bundle_ids: shell_bundle_presets(),
        shell_names: shell_name_presets(),
        utility_bundle_ids: utility_bundle_presets(),
        utility_names: utility_name_presets(),
        user_bundle_ids: trimmed_text_set(config.whitelist.bundle_ids@),
        user_names: trimmed_text_set(config.whitelist.names@),
        cli_keep_rules: trimmed_text_set(cli_keeps),
        disabled_rules: trimmed_text_set(config.whitelist.disabled_rules@),
        loaded_config_path: opt_text(loaded_config_path),
    }
}

impl WhitelistManager {
    /// Builds the matrix from a loaded configuration (and the path it came
    /// from, if any), the caller's process lineage and command-line keeps.
    pub fn new(
        config: &TaskCleanerConfig,
        loaded_config_path: Option<String>,
        caller_lineage: Vec<i32>,
        cli_keeps: &[String],
    ) -> (r: Self)
        ensures
            r@ == rules_from(*config, loaded_config_path, caller_lineage@, cli_keeps@),
    {
        WhitelistManager {
            l1_bundle_ids: core_bundle_preset_list(),
            l1_names: core_name_preset_list(),
            l2_pids: pid_set(&caller_lineage),
            l2_bundle_ids: shell_bundle_preset_list(),
            l2_names: shell_name_preset_list(),
            l3_bundle_ids: utility_bundle_preset_list(),
            l3_names: utility_name_preset_list(),
            l4_user_bundle_ids: trimmed_copies(config.whitelist.bundle_ids.as_slice()),
            l4_user_names: trimmed_copies(config.whitelist.names.as_slice()),
            cli_keep_rules: trimmed_copies(cli_keeps),
            disabled_rules: trimmed_copies(config.whitelist.disabled_rules.as_slice()),
            loaded_config_path,
        }
    }

    /// Whether an identifier, trimmed and ignoring ASCII case, names a
    /// critical system daemon (Dock, WindowServer, loginwindow and the like),
    /// which may never be terminated or removed from the whitelist.
    pub fn is_critical_system_daemon(identifier: &str) -> (r: bool)
        ensures
            r == is_critical_daemon(identifier@),
    {
        let t = trim_str(identifier);
        let list: [&str; 12] = [
            "com.apple.dock",
            "com.apple.WindowManager",
            "com.apple.systemuiserver",
            "com.apple.controlcenter",
            "com.apple.notificationcenterui",
            "com.apple.loginwindow",
            "Dock",
            "WindowServer",
            "SystemUIServer",
            "ControlCenter",
            "NotificationCenter",
            "loginwindow",
        ];
        let r = matches_any(t, &list);
        proof {
            if is_critical_daemon(identifier@) {
                if eq_ignore_ascii_case("com.apple.dock"@, t@) { assert(eq_ignore_ascii_case(list@[0]@, t@)); }
                if eq_ignore_ascii_case("com.apple.WindowManager"@, t@) { assert(eq_ignore_ascii_case(list@[1]@, t@)); }
                if eq_ignore_ascii_case("com.apple.systemuiserver"@, t@) { assert(eq_ignore_ascii_case(list@[2]@, t@)); }
                if eq_ignore_ascii_case("com.apple.controlcenter"@, t@) { assert(eq_ignore_ascii_case(list@[3]@, t@)); }
                if eq_ignore_ascii_case("com.apple.notificationcenterui"@, t@) { assert(eq_ignore_ascii_case(list@[4]@, t@)); }
                if eq_ignore_ascii_case("com.apple.loginwindow"@, t@) { assert(eq_ignore_ascii_case(list@[5]@, t@)); }
                if eq_ignore_ascii_case("Dock"@, t@) { assert(eq_ignore_ascii_case(list@[6]@, t@)); }
                if eq_ignore_ascii_case("WindowServer"@, t@) { assert(eq_ignore_ascii_case(list@[7]@, t@)); }
                if eq_ignore_ascii_case("SystemUIServer"@, t@) { assert(eq_ignore_ascii_case(list@[8]@, t@)); }
                if eq_ignore_ascii_case("ControlCenter"@, t@) { assert(eq_ignore_ascii_case(list@[9]@, t@)); }
                if eq_ignore_ascii_case("NotificationCenter"@, t@) { assert(eq_ignore_ascii_case(list@[10]@, t@)); }
                if eq_ignore_ascii_case("loginwindow"@, t@) { assert(eq_ignore_ascii_case(list@[11]@, t@)); }
            }
        }
        r
    }

    /// Whether an identifier, trimmed and ignoring ASCII case, names a member
    /// of the core tier: Finder and the critical system daemons.
    pub fn is_l1_core_os(identifier: &str) -> (r: bool)
        ensures
            r == is_core_os(identifier@),
    {
        let t = trim_str(identifier);
        let list: [&str; 15] = [
            "com.apple.finder",
            "com.apple.dock",
            "com.apple.WindowManager",
            "com.apple.systemuiserver",
            "com.apple.controlcenter",
            "com.apple.notificationcenterui",
            "com.apple.loginwindow",
            "Finder",
            "访达",
            "Dock",
            "WindowServer",
            "SystemUIServer",
            "ControlCenter",
            "NotificationCenter",
            "loginwindow",
        ];
        let r = matches_any(t, &list);
        proof {
            if is_core_os(identifier@) {
                if eq_ignore_ascii_case("com.apple.finder"@, t@) { assert(eq_ignore_ascii_case(list@[0]@, t@)); }
                if eq_ignore_ascii_case("com.apple.dock"@, t@) { assert(eq_ignore_ascii_case(list@[1]@, t@)); }
                if eq_ignore_ascii_case("com.apple.WindowManager"@, t@) { assert(eq_ignore_ascii_case(list@[2]@, t@)); }
                if eq_ignore_ascii_case("com.apple.systemuiserver"@, t@) { assert(eq_ignore_ascii_case(list@[3]@, t@)); }
                if eq_ignore_ascii_case("com.apple.controlcenter"@, t@) { assert(eq_ignore_ascii_case(list@[4]@, t@)); }
                if eq_ignore_ascii_case("com.apple.notificationcenterui"@, t@) { assert(eq_ignore_ascii_case(list@[5]@, t@)); }
                if eq_ignore_ascii_case("com.apple.loginwindow"@, t@) { assert(eq_ignore_ascii_case(list@[6]@, t@)); }
                if eq_ignore_ascii_case("Finder"@, t@) { assert(eq_ignore_ascii_case(list@[7]@, t@)); }
                if eq_ignore_ascii_case("访达"@, t@) { assert(eq_ignore_ascii_case(list@[8]@, t@)); }
                if eq_ignore_ascii_case("Dock"@, t@) { assert(eq_ignore_ascii_case(list@[9]@, t@)); }
                if eq_ignore_ascii_case("WindowServer"@, t@) { assert(eq_ignore_ascii_case(list@[10]@, t@)); }
                if eq_ignore_ascii_case("SystemUIServer"@, t@) { assert(eq_ignore_ascii_case(list@[11]@, t@)); }
                if eq_ignore_ascii_case("ControlCenter"@, t@) { assert(eq_ignore_ascii_case(list@[12]@, t@)); }
                if eq_ignore_ascii_case("NotificationCenter"@, t@) { assert(eq_ignore_ascii_case(list@[13]@, t@)); }
                if eq_ignore_ascii_case("loginwindow"@, t@) { assert(eq_ignore_ascii_case(list@[14]@, t@)); }
            }
        }
        r
    }

    /// Whether a command-line keep names `app`.
    fn keep_matches(&self, app: &AppTarget) -> (r: bool)
        ensures
            r == keep_matches(self@, *app),
    {
        let found = holds_text(&self.cli_keep_rules, &app.bundle_id) || holds_text(
            &self.cli_keep_rules,
            &app.name,
        ) || holds_text_ignoring_case(&self.cli_keep_rules, app.name.as_str())
            || holds_text_ignoring_case(&self.cli_keep_rules, app.bundle_id.as_str());
        proof {
            lemma_exact_implies_ignoring_case(text_set(self.cli_keep_rules@), app.name@);
            lemma_exact_implies_ignoring_case(text_set(self.cli_keep_rules@), app.bundle_id@);
        }
        found
    }

    /// The rule that protects `app`, if any.
    fn reason_for(&self, app: &AppTarget) -> (r: Option<ProtectionReason>)
        ensures
            r == protection_reason(self@, *app),
    {
        let name = app.name.as_str();
        let bundle = app.bundle_id.as_str();
        let in_lineage = self.l2_pids.contains(&app.pid);
        proof {
            broadcast use vstd::std_specs::hash::group_hash_axioms;
        }
        if in_lineage {
            return Some(ProtectionReason::CallerLineage);
        }
        if !Self::is_critical_system_daemon(bundle) && !Self::is_critical_system_daemon(name) {
            if holds_text(&self.disabled_rules, &app.bundle_id) || holds_text(
                &self.disabled_rules,
                &app.name,
            ) || holds_text_ignoring_case(&self.disabled_rules, name) || holds_text_ignoring_case(
                &self.disabled_rules,
                bundle,
            ) {
                proof {
                    lemma_exact_implies_ignoring_case(text_set(self.disabled_rules@), app.name@);
                    lemma_exact_implies_ignoring_case(text_set(self.disabled_rules@), app.bundle_id@);
                }
                if self.keep_matches(app) {
                    return Some(ProtectionReason::CliKeep);
                }
                return None;
            }
        }
        if holds_text(&self.l1_bundle_ids, &app.bundle_id) || Self::is_critical_system_daemon(
            bundle,
        ) {
            return Some(ProtectionReason::CoreBundle);
        }
        if holds_text(&self.l1_names, &app.name) || Self::is_critical_system_daemon(name) {
            return Some(ProtectionReason::CoreName);
        }
        if holds_text(&self.l2_bundle_ids, &app.bundle_id) {
            return Some(ProtectionReason::ShellBundle);
        }
        if holds_text(&self.l2_names, &app.name) {
            return Some(ProtectionReason::ShellName);
        }
        if holds_text(&self.l3_bundle_ids, &app.bundle_id) {
            return Some(ProtectionReason::UtilityBundle);
        }
        if holds_text(&self.l3_names, &app.name) {
            return Some(ProtectionReason::UtilityName);
        }
        if self.keep_matches(app) {
            return Some(ProtectionReason::CliKeep);
        }
        if holds_text(&self.l4_user_bundle_ids, &app.bundle_id) {
            return Some(ProtectionReason::UserBundle);
        }
        if holds_text(&self.l4_user_names, &app.name) || holds_text_ignoring_case(
            &self.l4_user_names,
            name,
        ) {
            proof {
                lemma_exact_implies_ignoring_case(text_set(self.l4_user_names@), app.name@);
            }
            return Some(ProtectionReason::UserName);
        }
        None
    }

    /// Whether the four-tier whitelist protects `app`, with the reason in
    /// Simplified Chinese.
    pub fn check_protection(&self, app: &AppTarget) -> (r: Option<WhitelistMatch>)
        ensures
            match_view(r) == protection_match(self@, *app, Language::ZhHans),
    {
        self.check_protection_with_lang(app, Language::ZhHans)
    }

    /// Whether the four-tier whitelist protects `app`, with the tier label
    /// and the matched rule in the given language and the tier's
    /// language-independent identifier.
    pub fn check_protection_with_lang(&self, app: &AppTarget, lang: Language) -> (r: Option<
        WhitelistMatch,
    >)
        ensures
            match_view(r) == protection_match(self@, *app, lang),
    {
        let reason = match self.reason_for(app) {
            Some(reason) => reason,
            None => {
                return None;
            },
        };
        let zh = lang == Language::ZhHans || lang == Language::ZhHant;
        let tier = match reason {
            ProtectionReason::CallerLineage => WhitelistTier::L2ContextShell,
            ProtectionReason::CoreBundle => WhitelistTier::L1CoreOs,
            ProtectionReason::CoreName => WhitelistTier::L1CoreOs,
            ProtectionReason::ShellBundle => WhitelistTier::L2ContextShell,
            ProtectionReason::ShellName => WhitelistTier::L2ContextShell,
            ProtectionReason::UtilityBundle => WhitelistTier::L3PersistentUtilities,
            ProtectionReason::UtilityName => WhitelistTier::L3PersistentUtilities,
            ProtectionReason::CliKeep => WhitelistTier::L4CliOverride,
            ProtectionReason::UserBundle => WhitelistTier::L4UserConfig,
            ProtectionReason::UserName => WhitelistTier::L4UserConfig,
        };
        let matched_rule = match reason {
            ProtectionReason::CallerLineage => {
                let mut text = String::from_str(
                    if zh {
                        "进程 PID 处于当前调用者会话链路 ("
                    } else {
                        "PID "
                    },
                );
                push_decimal_i32(&mut text, app.pid);
                text.append(
                    if zh {
                        ")"
                    } else {
                        " in caller session lineage"
                    },
                );
                text
            },
            ProtectionReason::CliKeep => {
                let mut text = String::from_str(
                    if zh {
                        "命令行 -k 参数命中: "
                    } else {
                        "CLI -k keep rule matched: "
                    },
                );
                text.append(app.name.as_str());
                text.append(" / ");
                text.append(app.bundle_id.as_str());
                text
            },
            _ => {
                let (zh_prefix, en_prefix, by_bundle): (&str, &str, bool) = match reason {
                    ProtectionReason::CoreBundle => ("系统核心包名: ", "Core OS bundle ID: ", true),
                    ProtectionReason::CoreName => ("系统核心应用名: ", "Core OS app name: ", false),
                    ProtectionReason::ShellBundle => (
                        "终端/IDE 包名: ",
                        "Terminal/IDE bundle ID: ",
                        true,
                    ),
                    ProtectionReason::ShellName => (
                        "终端/IDE 应用名: ",
                        "Terminal/IDE app name: ",
                        false,
                    ),
                    ProtectionReason::UtilityBundle => (
                        "常驻基础设施包名: ",
                        "Persistent utility bundle ID: ",
                        true,
                    ),
                    ProtectionReason::UtilityName => (
                        "常驻基础设施应用名: ",
                        "Persistent utility app name: ",
                        false,
                    ),
                    ProtectionReason::UserBundle => (
                        "用户配置包名: ",
                        "User config bundle ID: ",
                        true,
                    ),
                    _ => ("用户配置应用名: ", "User config app name: ", false),
                };
                let mut text = String::from_str(
                    if zh {
                        zh_prefix
                    } else {
                        en_prefix
                    },
                );
                text.append(
                    if by_bundle {
                        app.bundle_id.as_str()
                    } else {
                        app.name.as_str()
                    },
                );
                text
            },
        };
        Some(
            WhitelistMatch {
                tier,
                tier_label: String::from_str(tier.localized_label(lang)),
                matched_rule,
                tier_id: String::from_str(tier.identifier()),
            },
        )
    }


    /// Adds bundle identifiers and names to the configuration's whitelist:
    /// each is trimmed, blank ones are skipped, a removal of it is lifted, and
    /// it joins its list unless already there (ASCII case ignored). Returns
    /// how many joined. The general settings are unchanged.
    pub fn append_to_user_config(
        config: &mut TaskCleanerConfig,
        bundle_ids: &[String],
        names: &[String],
    ) -> (added: usize)
        requires
            bundle_ids@.len() + names@.len() <= usize::MAX,
        ensures
            (final(config).whitelist@, added as nat) == appended(
                old(config).whitelist@,
                texts(bundle_ids@),
                texts(names@),
            ),
            final(config).general == old(config).general,
    {
        let c1 = add_all_entries(&mut config.whitelist, bundle_ids, false);
        let c2 = add_all_entries(&mut config.whitelist, names, true);
        proof {
            lemma_add_entries_count(old(config).whitelist@, texts(bundle_ids@), false);
        }
        proof {
            lemma_add_entries_count(
                add_entries(old(config).whitelist@, texts(bundle_ids@), false).0,
                texts(names@),
                true,
            );
        }
        c1 + c2
    }

    /// Adds one identifier, trimmed, to the bundle list when it looks like a
    /// bundle identifier and to the name list otherwise. True when it joined.
    pub fn add_identifier_to_config(config: &mut TaskCleanerConfig, identifier: &str) -> (added:
        bool)
        ensures
            (final(config).whitelist@, added) == identifier_added(
                old(config).whitelist@,
                identifier@,
            ),
            final(config).general == old(config).general,
    {
        let t = trim_str(identifier);
        let is_bundle_id = str_contains_char(t, '.') && !str_contains_char(t, ' ');
        let one: Vec<String> = vec![String::from_str(t)];
        let none: Vec<String> = Vec::new();
        assert(texts(one@) =~= seq![t@]);
        assert(texts(none@) =~= Seq::<Seq<char>>::empty());
        let count = if is_bundle_id {
            Self::append_to_user_config(config, one.as_slice(), none.as_slice())
        } else {
            Self::append_to_user_config(config, none.as_slice(), one.as_slice())
        };
        count > 0
    }

    /// Removes an identifier, trimmed, from both lists of the configuration's
    /// whitelist (ASCII case ignored); when it names a built-in preset it is
    /// also recorded as removed (once), so that the preset stops protecting.
    /// Critical system daemons are
    /// refused and the configuration is left as it was. `Ok` tells whether
    /// anything changed.
    pub fn remove_identifier_from_config(config: &mut TaskCleanerConfig, identifier: &str) -> (r:
        Result<bool, ConfigEditError>)
        ensures
            is_critical_daemon(identifier@) ==> {
                &&& r matches Err(ConfigEditError::CriticalDaemonProtected(t))
                &&& t@ == trim(identifier@)
                &&& *final(config) == *old(config)
            },
            !is_critical_daemon(identifier@) ==> {
                &&& r == Ok::<bool, ConfigEditError>(removed(old(config).whitelist@, trim(identifier@)).1)
                &&& final(config).whitelist@ == removed(old(config).whitelist@, trim(identifier@)).0
                &&& final(config).general == old(config).general
            },
    {
        let t = trim_str(identifier);
        proof {
            crate::text::lemma_trim_idempotent(identifier@);
        }
        if Self::is_critical_system_daemon(t) {
            return Err(ConfigEditError::CriticalDaemonProtected(String::from_str(t)));
        }
        let b_len = config.whitelist.bundle_ids.len();
        let n_len = config.whitelist.names.len();
        config.whitelist.bundle_ids = without_matching(&config.whitelist.bundle_ids, t);
        config.whitelist.names = without_matching(&config.whitelist.names, t);
        let mut modified = config.whitelist.bundle_ids.len() != b_len
            || config.whitelist.names.len() != n_len;
        if !has_matching(&config.whitelist.disabled_rules, t) && is_preset_identifier(t) {
            config.whitelist.disabled_rules.push(String::from_str(t));
            assert(texts(config.whitelist.disabled_rules@) =~= texts(
                old(config).whitelist.disabled_rules@,
            ).push(t@));
            modified = true;
        }
        Ok(modified)
    }

    /// Stores a language preference in the configuration: "auto" clears it.
    /// True when the setting changed. Nothing else changes.
    pub fn set_language_in_config(config: &mut TaskCleanerConfig, lang_code: &str) -> (changed:
        bool)
        ensures
            (opt_text(final(config).general.language), changed) == language_after(
                opt_text(old(config).general.language),
                lang_code@,
            ),
            final(config).general.grace_period_ms == old(config).general.grace_period_ms,
            final(config).general.default_dry_run == old(config).general.default_dry_run,
            final(config).whitelist@ == old(config).whitelist@,
    {
        if str_eq_ignore_ascii_case(lang_code, "auto") {
            let was_some = config.general.language.is_some();
            config.general.language = None;
            was_some
        } else {
            let differs = match &config.general.language {
                Some(current) => !str_equal(current.as_str(), lang_code),
                None => true,
            };
            config.general.language = Some(String::from_str(lang_code));
            differs
        }
    }

    /// Drops removal records that name critical system daemons, which may
    /// never lose their protection; a loaded configuration passes through
    /// this before use.
    pub fn discard_critical_removals(config: &mut TaskCleanerConfig)
        ensures
            final(config).whitelist@.disabled_rules == old(config).whitelist@.disabled_rules.filter(
                removable(),
            ),
            final(config).whitelist@.bundle_ids == old(config).whitelist@.bundle_ids,
            final(config).whitelist@.names == old(config).whitelist@.names,
            final(config).general == old(config).general,
    {
        let mut out: Vec<String> = Vec::new();
        let mut i: usize = 0;
        while i < config.whitelist.disabled_rules.len()
            invariant
                i <= config.whitelist.disabled_rules@.len(),
                config.whitelist.disabled_rules@ == old(config).whitelist.disabled_rules@,
                texts(out@) == texts(config.whitelist.disabled_rules@).subrange(0, i as int).filter(
                    removable(),
                ),
            decreases config.whitelist.disabled_rules.len() - i,
        {
            let critical = Self::is_critical_system_daemon(
                config.whitelist.disabled_rules[i].as_str(),
            );
            proof {
                reveal_with_fuel(Seq::filter, 1);
                let pre = texts(config.whitelist.disabled_rules@).subrange(0, i + 1);
                assert(pre.drop_last() == texts(config.whitelist.disabled_rules@).subrange(
                    0,
                    i as int,
                ));
                assert(pre.last() == config.whitelist.disabled_rules@[i as int]@);
                assert(removable()(pre.last()) == !critical);
            }
            if !critical {
                out.push(config.whitelist.disabled_rules[i].clone());
                assert(texts(out@) =~= texts(config.whitelist.disabled_rules@).subrange(
                    0,
                    i as int,
                ).filter(removable()).push(config.whitelist.disabled_rules@[i as int]@));
            }
            i = i + 1;
        }
        assert(texts(config.whitelist.disabled_rules@).subrange(
            0,
            config.whitelist.disabled_rules@.len() as int,
        ) == texts(config.whitelist.disabled_rules@));
        config.whitelist.disabled_rules = out;
    }


    /// Splits applications into those the whitelist protects, each with its
    /// match (reasons in Simplified Chinese), and those it does not, both in
    /// the given order.
    pub fn split_by_protection(&self, apps: &[AppTarget]) -> (r: (
        Vec<(AppTarget, WhitelistMatch)>,
        Vec<AppTarget>,
    ))
        ensures
            r.0@.map_values(|p: (AppTarget, WhitelistMatch)| p.0) == apps@.filter(
                protected_by(self@),
            ),
            forall|i: int|
                0 <= i < r.0@.len() ==> Some((#[trigger] r.0@[i]).1@) == protection_match(
                    self@,
                    r.0@[i].0,
                    Language::ZhHans,
                ),
            r.1@ == apps@.filter(unprotected_by(self@)),
    {
        let mut protected: Vec<(AppTarget, WhitelistMatch)> = Vec::new();
        let mut targets: Vec<AppTarget> = Vec::new();
        let mut i: usize = 0;
        while i < apps.len()
            invariant
                i <= apps@.len(),
                protected@.map_values(|p: (AppTarget, WhitelistMatch)| p.0) == apps@.subrange(
                    0,
                    i as int,
                ).filter(protected_by(self@)),
                forall|k: int|
                    0 <= k < protected@.len() ==> Some((#[trigger] protected@[k]).1@)
                        == protection_match(self@, protected@[k].0, Language::ZhHans),
                targets@ == apps@.subrange(0, i as int).filter(unprotected_by(self@)),
            decreases apps.len() - i,
        {
            proof {
                reveal_with_fuel(Seq::filter, 1);
                let pre = apps@.subrange(0, i + 1);
                assert(pre.drop_last() == apps@.subrange(0, i as int));
                assert(pre.last() == apps@[i as int]);
            }
            let ghost before = protected@;
            match self.check_protection(&apps[i]) {
                Some(matched) => {
                    protected.push((apps[i].duplicate(), matched));
                    assert(protected@.map_values(|p: (AppTarget, WhitelistMatch)| p.0) =~= before.map_values(
                        |p: (AppTarget, WhitelistMatch)| p.0,
                    ).push(apps@[i as int]));
                    assert(forall|k: int| 0 <= k < before.len() ==> protected@[k] == before[k]);
                },
                None => {
                    targets.push(apps[i].duplicate());
                },
            }
            i = i + 1;
        }
        assert(apps@.subrange(0, apps@.len() as int) == apps@);
        (protected, targets)
    }

}

/// The texts of a whitelist section: bundle identifiers, names and removed rules.
pub struct SectionView {
    pub bundle_ids: Seq<Seq<char>>,
    pub names: Seq<Seq<char>>,
    pub disabled_rules: Seq<Seq<char>>,
}

impl View for WhitelistSection {
    type V = SectionView;

    open spec fn view(&self) -> SectionView {
        SectionView {
            bundle_ids: texts(self.bundle_ids@),
            names: texts(self.names@),
            disabled_rules: texts(self.disabled_rules@),
        }
    }
}

/// Whether a list holds a text equal to `t` up to ASCII case.
pub open spec fn list_has_ignoring_case(list: Seq<Seq<char>>, t: Seq<char>) -> bool {
    exists|i: int| 0 <= i < list.len() && eq_ignore_ascii_case(#[trigger] list[i], t)
}

/// The test that keeps the texts not equal to `t` up to ASCII case.
pub open spec fn not_matching(t: Seq<char>) -> spec_fn(Seq<char>) -> bool {
    |x: Seq<char>| !eq_ignore_ascii_case(x, t)
}

/// One entry added to a section. The entry is trimmed and ignored when
/// empty; otherwise every removal of it (ASCII case ignored) is lifted, and
/// it joins the bundle list (or the name list) unless that list already
/// holds it up to ASCII case. The number is 1 when it joined, else 0.
pub open spec fn add_entry(sec: SectionView, entry: Seq<char>, as_name: bool) -> (SectionView, nat) {
    let t = trim(entry);
    if t.len() == 0 {
        (sec, 0)
    } else {
        let disabled = sec.disabled_rules.filter(not_matching(t));
        let list = if as_name {
            sec.names
        } else {
            sec.bundle_ids
        };
        if list_has_ignoring_case(list, t) {
            (SectionView { disabled_rules: disabled, ..sec }, 0)
        } else if as_name {
            (SectionView { names: list.push(t), disabled_rules: disabled, ..sec }, 1)
        } else {
            (SectionView { bundle_ids: list.push(t), disabled_rules: disabled, ..sec }, 1)
        }
    }
}

/// Entries added one after the other; the number counts those that joined.
pub open spec fn add_entries(sec: SectionView, entries: Seq<Seq<char>>, as_name: bool) -> (
    SectionView,
    nat,
)
    decreases entries.len(),
{
    if entries.len() == 0 {
        (sec, 0)
    } else {
        let (s1, c1) = add_entries(sec, entries.drop_last(), as_name);
        let (s2, c2) = add_entry(s1, entries.last(), as_name);
        (s2, c1 + c2)
    }
}

/// Bundle identifiers added, then names; the number counts what joined.
pub open spec fn appended(sec: SectionView, bundle_ids: Seq<Seq<char>>, names: Seq<Seq<char>>) -> (
    SectionView,
    nat,
) {
    let (s1, c1) = add_entries(sec, bundle_ids, false);
    let (s2, c2) = add_entries(s1, names, true);
    (s2, c1 + c2)
}

/// An identifier removed from a section: every entry equal to it up to ASCII
/// case leaves both lists, and it is recorded as removed unless a removal of
/// it is recorded already. The flag tells whether anything changed.
pub open spec fn removed(sec: SectionView, t: Seq<char>) -> (SectionView, bool) {
    let b = sec.bundle_ids.filter(not_matching(t));
    let n = sec.names.filter(not_matching(t));
    let lists_changed = b.len() != sec.bundle_ids.len() || n.len() != sec.names.len();
    if list_has_ignoring_case(sec.disabled_rules, t) || !is_preset(t) {
        (SectionView { bundle_ids: b, names: n, ..sec }, lists_changed)
    } else {
        (SectionView { bundle_ids: b, names: n, disabled_rules: sec.disabled_rules.push(t) }, true)
    }
}

/// One identifier added: trimmed, it joins the bundle list when it looks
/// like a bundle identifier and the name list otherwise; the flag tells
/// whether it joined.
pub open spec fn identifier_added(sec: SectionView, identifier: Seq<char>) -> (SectionView, bool) {
    let t = trim(identifier);
    let r = if looks_like_bundle_id(t) {
        appended(sec, seq![t], seq![])
    } else {
        appended(sec, seq![], seq![t])
    };
    (r.0, r.1 > 0)
}

/// Whether an identifier names a built-in preset of the core, session or
/// utility tiers (the core tier with all its critical daemons), ASCII case
/// ignored.
pub open spec fn is_preset(t: Seq<char>) -> bool {
    ||| is_core_os(t)
    ||| has_ignoring_case(shell_bundle_presets(), t)
    ||| has_ignoring_case(shell_name_presets(), t)
    ||| has_ignoring_case(utility_bundle_presets(), t)
    ||| has_ignoring_case(utility_name_presets(), t)
}

/// Whether an identifier names a built-in preset.
fn is_preset_identifier(t: &str) -> (r: bool)
    ensures
        r == is_preset(t@),
{
    WhitelistManager::is_l1_core_os(t) || holds_text_ignoring_case(&shell_bundle_preset_list(), t)
        || holds_text_ignoring_case(&shell_name_preset_list(), t) || holds_text_ignoring_case(
        &utility_bundle_preset_list(),
        t,
    ) || holds_text_ignoring_case(&utility_name_preset_list(), t)
}

/// An identifier is taken for a bundle identifier when it holds a dot and
/// no space; otherwise for an application name.
pub open spec fn looks_like_bundle_id(t: Seq<char>) -> bool {
    t.contains('.') && !t.contains(' ')
}

/// The language setting after a request: "auto" (ASCII case ignored) clears
/// it, anything else is stored as given. The flag tells whether it changed.
pub open spec fn language_after(current: Option<Seq<char>>, code: Seq<char>) -> (
    Option<Seq<char>>,
    bool,
) {
    if eq_ignore_ascii_case(code, "auto"@) {
        (None, current is Some)
    } else {
        (Some(code), current != Some(code))
    }
}

/// The test that keeps removal records of anything but critical daemons.
pub open spec fn removable() -> spec_fn(Seq<char>) -> bool {
    |x: Seq<char>| !is_critical_daemon(x)
}

/// Why a configuration edit was refused.
#[derive(Debug)]
pub enum ConfigEditError {
    /// The (trimmed) identifier names a critical system daemon.
    CriticalDaemonProtected(String),
}

/// The message of a refused removal.
pub open spec fn refusal_text(t: Seq<char>) -> Seq<char> {
    "系统底层守护服务 ("@ + t + ") 属于核心常驻体系，禁止从白名单移除"@
}

impl ConfigEditError {
    /// The message shown to the user.
    pub fn message(&self) -> (r: String)
        ensures
            match self {
                ConfigEditError::CriticalDaemonProtected(t) => r@ == refusal_text(t@),
            },
    {
        match self {
            ConfigEditError::CriticalDaemonProtected(t) => {
                let mut out = String::from_str("系统底层守护服务 (");
                out.append(t.as_str());
                out.append(") 属于核心常驻体系，禁止从白名单移除");
                out
            },
        }
    }
}

/// The strings of a vector that are not equal to `t` up to ASCII case.
fn without_matching(v: &Vec<String>, t: &str) -> (r: Vec<String>)
    ensures
        texts(r@) == texts(v@).filter(not_matching(t@)),
{
    let mut out: Vec<String> = Vec::new();
    let mut i: usize = 0;
    while i < v.len()
        invariant
            i <= v@.len(),
            texts(out@) == texts(v@).subrange(0, i as int).filter(not_matching(t@)),
        decreases v.len() - i,
    {
        let keep = !str_eq_ignore_ascii_case(v[i].as_str(), t);
        proof {
            reveal_with_fuel(Seq::filter, 1);
            assert(texts(v@).subrange(0, i + 1).drop_last() == texts(v@).subrange(0, i as int));
            assert(texts(v@).subrange(0, i + 1).last() == v@[i as int]@);
        }
        if keep {
            out.push(v[i].clone());
            assert(texts(out@) =~= texts(v@).subrange(0, i as int).filter(not_matching(t@)).push(
                v@[i as int]@,
            ));
        }
        i = i + 1;
    }
    assert(texts(v@).subrange(0, v@.len() as int) == texts(v@));
    out
}

/// Whether a vector holds a string equal to `t` up to ASCII case.
fn has_matching(v: &Vec<String>, t: &str) -> (r: bool)
    ensures
        r == list_has_ignoring_case(texts(v@), t@),
{
    let mut i: usize = 0;
    while i < v.len()
        invariant
            i <= v@.len(),
            forall|k: int| 0 <= k < i ==> !eq_ignore_ascii_case(#[trigger] v@[k]@, t@),
        decreases v.len() - i,
    {
        if str_eq_ignore_ascii_case(v[i].as_str(), t) {
            assert(eq_ignore_ascii_case(texts(v@)[i as int], t@));
            return true;
        }
        i = i + 1;
    }
    assert forall|k: int| 0 <= k < texts(v@).len() implies !eq_ignore_ascii_case(
        #[trigger] texts(v@)[k],
        t@,
    ) by {
        assert(texts(v@)[k] == v@[k]@);
    }
    false
}

/// Adds one entry to a section; true when it joined a list.
fn add_one_entry(section: &mut WhitelistSection, entry: &str, as_name: bool) -> (joined: bool)
    ensures
        (final(section)@, if joined {
            1nat
        } else {
            0nat
        }) == add_entry(old(section)@, entry@, as_name),
{
    let t = trim_str(entry);
    if t.unicode_len() == 0 {
        return false;
    }
    section.disabled_rules = without_matching(&section.disabled_rules, t);
    let present = if as_name {
        has_matching(&section.names, t)
    } else {
        has_matching(&section.bundle_ids, t)
    };
    if present {
        return false;
    }
    if as_name {
        section.names.push(String::from_str(t));
        assert(texts(section.names@) =~= texts(old(section).names@).push(t@));
    } else {
        section.bundle_ids.push(String::from_str(t));
        assert(texts(section.bundle_ids@) =~= texts(old(section).bundle_ids@).push(t@));
    }
    true
}

proof fn lemma_add_entries_count(sec: SectionView, entries: Seq<Seq<char>>, as_name: bool)
    ensures
        add_entries(sec, entries, as_name).1 <= entries.len(),
    decreases entries.len(),
{
    if entries.len() > 0 {
        lemma_add_entries_count(sec, entries.drop_last(), as_name);
    }
}

/// Adds entries one after the other; returns how many joined a list.
fn add_all_entries(section: &mut WhitelistSection, entries: &[String], as_name: bool) -> (count:
    usize)
    ensures
        (final(section)@, count as nat) == add_entries(old(section)@, texts(entries@), as_name),
{
    let mut count: usize = 0;
    let mut i: usize = 0;
    while i < entries.len()
        invariant
            i <= entries@.len(),
            count <= i,
            (section@, count as nat) == add_entries(
                old(section)@,
                texts(entries@).subrange(0, i as int),
                as_name,
            ),
        decreases entries.len() - i,
    {
        proof {
            let pre = texts(entries@).subrange(0, i + 1);
            assert(pre.drop_last() == texts(entries@).subrange(0, i as int));
            assert(pre.last() == entries@[i as int]@);
        }
        if add_one_entry(section, entries[i].as_str(), as_name) {
            count = count + 1;
        }
        i = i + 1;
    }
    assert(texts(entries@).subrange(0, entries@.len() as int) == texts(entries@));
    count
}

/// Every critical system daemon belongs to the core tier.
pub proof fn lemma_critical_daemon_is_core(s: Seq<char>)
    ensures
        is_critical_daemon(s) ==> is_core_os(s),
{
}

/// Finder belongs to the core tier but is not a critical daemon, so the user
/// may remove its protection.
pub proof fn lemma_finder_is_core_not_critical(s: Seq<char>)
    ensures
        is_finder_identifier(s) ==> is_core_os(s) && !is_critical_daemon(s),
{
    reveal_strlit("com.apple.finder");
    reveal_strlit("Finder");
    reveal_strlit("访达");
    reveal_strlit("com.apple.dock");
    reveal_strlit("com.apple.WindowManager");
    reveal_strlit("com.apple.systemuiserver");
    reveal_strlit("com.apple.controlcenter");
    reveal_strlit("com.apple.notificationcenterui");
    reveal_strlit("com.apple.loginwindow");
    reveal_strlit("Dock");
    reveal_strlit("WindowServer");
    reveal_strlit("SystemUIServer");
    reveal_strlit("ControlCenter");
    reveal_strlit("NotificationCenter");
    reveal_strlit("loginwindow");
    let t = trim(s);
    if is_finder_identifier(s) {
        if t == "访达"@ {
            assert(eq_ignore_ascii_case("访达"@, t));
        }
        assert(ascii_lowercase(t).len() == t.len());
    }
}

/// A target in the caller's process lineage is always protected, in the
/// session tier, whatever else the rules say.
pub proof fn lemma_lineage_always_protected(r: WhitelistRules, app: AppTarget)
    requires
        r.caller_pids.contains(app.pid),
    ensures
        protection_reason(r, app) == Some(ProtectionReason::CallerLineage),
        reason_tier(ProtectionReason::CallerLineage) == WhitelistTier::L2ContextShell,
{
}

/// The core presets are members of the core tier.
proof fn lemma_core_presets_are_core()
    ensures
        forall|b: Seq<char>| #[trigger] core_bundle_presets().contains(b) ==> is_core_os(b),
        forall|n: Seq<char>| #[trigger] core_name_presets().contains(n) ==> is_core_os(n),
{
    reveal_strlit("com.apple.finder");
    assert(trim("com.apple.finder"@) == "com.apple.finder"@);
    reveal_strlit("com.apple.dock");
    assert(trim("com.apple.dock"@) == "com.apple.dock"@);
    reveal_strlit("com.apple.WindowManager");
    assert(trim("com.apple.WindowManager"@) == "com.apple.WindowManager"@);
    reveal_strlit("com.apple.systemuiserver");
    assert(trim("com.apple.systemuiserver"@) == "com.apple.systemuiserver"@);
    reveal_strlit("com.apple.controlcenter");
    assert(trim("com.apple.controlcenter"@) == "com.apple.controlcenter"@);
    reveal_strlit("com.apple.notificationcenterui");
    assert(trim("com.apple.notificationcenterui"@) == "com.apple.notificationcenterui"@);
    reveal_strlit("com.apple.loginwindow");
    assert(trim("com.apple.loginwindow"@) == "com.apple.loginwindow"@);
    reveal_strlit("Finder");
    assert(trim("Finder"@) == "Finder"@);
    reveal_strlit("访达");
    assert(trim("访达"@) == "访达"@);
    reveal_strlit("Dock");
    assert(trim("Dock"@) == "Dock"@);
    reveal_strlit("WindowServer");
    assert(trim("WindowServer"@) == "WindowServer"@);
    assert forall|b: Seq<char>| #[trigger] core_bundle_presets().contains(b) implies is_core_os(b) by {
        let l = seq!["com.apple.finder"@, "com.apple.dock"@, "com.apple.WindowManager"@, "com.apple.systemuiserver"@, "com.apple.controlcenter"@, "com.apple.notificationcenterui"@, "com.apple.loginwindow"@];
        let i = choose|i: int| 0 <= i < l.len() && l[i] == b;
    }
    assert forall|n: Seq<char>| #[trigger] core_name_presets().contains(n) implies is_core_os(n) by {
        let l = seq!["Finder"@, "访达"@, "Dock"@, "WindowServer"@];
        let i = choose|i: int| 0 <= i < l.len() && l[i] == n;
    }
}

/// Every preset of the session and utility tiers protects at its tier. For
/// a target outside the caller's lineage that no removal record names and
/// that is not a member of the core tier, built from any configuration and
/// any keeps: a shell bundle identifier protects in L2 by bundle whatever
/// the name; otherwise a shell name protects in L2 by name; otherwise a
/// utility bundle identifier, then a utility name, protect in L3.
pub proof fn lemma_presets_protect_at_their_tier(
    config: TaskCleanerConfig,
    loaded_config_path: Option<String>,
    caller_lineage: Seq<i32>,
    cli_keeps: Seq<String>,
    app: AppTarget,
)
    requires
        !caller_lineage.contains(app.pid),
        !has_ignoring_case(trimmed_text_set(config.whitelist.disabled_rules@), app.name@),
        !has_ignoring_case(trimmed_text_set(config.whitelist.disabled_rules@), app.bundle_id@),
        !is_core_os(app.name@),
        !is_core_os(app.bundle_id@),
    ensures
        ({
            let r = protection_reason(
                rules_from(config, loaded_config_path, caller_lineage, cli_keeps),
                app,
            );
            let b = app.bundle_id@;
            let n = app.name@;
            &&& shell_bundle_presets().contains(b) ==> r == Some(ProtectionReason::ShellBundle)
            &&& !shell_bundle_presets().contains(b) && shell_name_presets().contains(n) ==> r
                == Some(ProtectionReason::ShellName)
            &&& !shell_bundle_presets().contains(b) && !shell_name_presets().contains(n)
                && utility_bundle_presets().contains(b) ==> r == Some(
                ProtectionReason::UtilityBundle,
            )
            &&& !shell_bundle_presets().contains(b) && !shell_name_presets().contains(n)
                && !utility_bundle_presets().contains(b) && utility_name_presets().contains(n) ==> r
                == Some(ProtectionReason::UtilityName)
            &&& r is Some ==> reason_tier(r->0) != WhitelistTier::L1CoreOs
        }),
{
    lemma_core_presets_are_core();
    lemma_critical_daemon_is_core(app.name@);
    lemma_critical_daemon_is_core(app.bundle_id@);
}

/// Every core preset protects in L1: a target outside the caller's lineage
/// whose bundle identifier is a core preset is protected by bundle, and one
/// whose name is a core preset by name, unless a removal record names it.
pub proof fn lemma_core_presets_protect(
    config: TaskCleanerConfig,
    loaded_config_path: Option<String>,
    caller_lineage: Seq<i32>,
    cli_keeps: Seq<String>,
    app: AppTarget,
)
    requires
        !caller_lineage.contains(app.pid),
        !has_ignoring_case(trimmed_text_set(config.whitelist.disabled_rules@), app.name@),
        !has_ignoring_case(trimmed_text_set(config.whitelist.disabled_rules@), app.bundle_id@),
    ensures
        ({
            let r = protection_reason(
                rules_from(config, loaded_config_path, caller_lineage, cli_keeps),
                app,
            );
            &&& core_bundle_presets().contains(app.bundle_id@) ==> r == Some(
                ProtectionReason::CoreBundle,
            )
            &&& core_name_presets().contains(app.name@) ==> r is Some && reason_tier(r->0)
                == WhitelistTier::L1CoreOs
        }),
{
}

/// Whether a text is one of the built-in presets a whitelist installs.
pub open spec fn installed_preset(t: Seq<char>) -> bool {
    ||| core_bundle_presets().contains(t)
    ||| core_name_presets().contains(t)
    ||| shell_bundle_presets().contains(t)
    ||| shell_name_presets().contains(t)
    ||| utility_bundle_presets().contains(t)
    ||| utility_name_presets().contains(t)
}

/// Removing any installed preset (other than a critical daemon) records its
/// removal, and a whitelist built afterwards no longer protects a target that
/// it names by name or bundle identifier (ASCII case ignored), unless the
/// target is in the caller's lineage, is a critical daemon or is kept on the
/// command line.
pub proof fn lemma_removing_a_preset_takes_effect(
    before: TaskCleanerConfig,
    after: TaskCleanerConfig,
    identifier: Seq<char>,
    loaded_config_path: Option<String>,
    caller_lineage: Seq<i32>,
    cli_keeps: Seq<String>,
    app: AppTarget,
)
    requires
        installed_preset(trim(identifier)),
        !is_critical_daemon(identifier),
        after.whitelist@ == removed(before.whitelist@, trim(identifier)).0,
        !caller_lineage.contains(app.pid),
        !has_ignoring_case(trimmed_text_set(cli_keeps), app.name@),
        !has_ignoring_case(trimmed_text_set(cli_keeps), app.bundle_id@),
        !is_critical_daemon(app.bundle_id@),
        !is_critical_daemon(app.name@),
        eq_ignore_ascii_case(app.name@, trim(identifier)) || eq_ignore_ascii_case(
            app.bundle_id@,
            trim(identifier),
        ),
    ensures
        list_has_ignoring_case(after.whitelist@.disabled_rules, trim(identifier)),
        protection_reason(rules_from(after, loaded_config_path, caller_lineage, cli_keeps), app)
            is None,
{
    let t = trim(identifier);
    lemma_core_presets_are_core();
    assert(eq_ignore_ascii_case(t, t));
    assert(is_preset(t));
    lemma_removed_identifier_unprotected(
        before,
        after,
        identifier,
        loaded_config_path,
        caller_lineage,
        cli_keeps,
        app,
    );
    if !list_has_ignoring_case(before.whitelist@.disabled_rules, t) {
        let k = before.whitelist@.disabled_rules.len() as int;
        assert(after.whitelist@.disabled_rules[k] == t);
    }
}

/// Every critical system daemon (Dock, WindowServer, SystemUIServer,
/// ControlCenter, NotificationCenter, loginwindow), named by its bundle
/// identifier or by its name, is protected in the core tier whatever the
/// configuration and keeps say, unless it is in the caller's lineage, which
/// protects it first.
pub proof fn lemma_critical_daemon_always_core(r: WhitelistRules, app: AppTarget)
    requires
        !r.caller_pids.contains(app.pid),
        is_critical_daemon(app.bundle_id@) || is_critical_daemon(app.name@),
    ensures
        protection_reason(r, app) is Some,
        reason_tier(protection_reason(r, app)->0) == WhitelistTier::L1CoreOs,
{
}

/// A target that a command-line or temporary keep names by its exact
/// (trimmed) bundle identifier or name is protected, whatever the
/// configuration says, removal records included.
pub proof fn lemma_kept_target_protected(
    config: TaskCleanerConfig,
    loaded_config_path: Option<String>,
    caller_lineage: Seq<i32>,
    cli_keeps: Seq<String>,
    app: AppTarget,
    k: int,
)
    requires
        0 <= k < cli_keeps.len(),
        (trim(cli_keeps[k]@) == app.bundle_id@ || trim(cli_keeps[k]@) == app.name@),
    ensures
        protection_reason(rules_from(config, loaded_config_path, caller_lineage, cli_keeps), app)
            is Some,
{
    let r = rules_from(config, loaded_config_path, caller_lineage, cli_keeps);
    let t = trim(cli_keeps[k]@);
    assert(r.cli_keep_rules.contains(t));
    assert(eq_ignore_ascii_case(t, t));
    assert(keep_matches(r, app));
}

/// Removal records cannot lift the protection of a critical system daemon:
/// with any other set of removals the decision is the same.
pub proof fn lemma_removals_never_unprotect_critical(
    r: WhitelistRules,
    other_removals: Set<Seq<char>>,
    app: AppTarget,
)
    requires
        is_critical_daemon(app.bundle_id@) || is_critical_daemon(app.name@),
    ensures
        protection_reason(r, app) == protection_reason(
            WhitelistRules { disabled_rules: other_removals, ..r },
            app,
        ),
{
}

/// The language only changes the words of a match: whether a target is
/// protected, its tier and the tier identifier are the same in every language.
pub proof fn lemma_decision_independent_of_language(
    r: WhitelistRules,
    app: AppTarget,
    a: Language,
    b: Language,
)
    ensures
        protection_match(r, app, a) is Some <==> protection_match(r, app, b) is Some,
        protection_match(r, app, a) is Some ==> protection_match(r, app, a)->0.tier
            == protection_match(r, app, b)->0.tier && protection_match(r, app, a)->0.tier_id
            == protection_match(r, app, b)->0.tier_id,
{
}

proof fn lemma_ascii_lower_keeps_space(c: char, d: char)
    requires
        ascii_lower(c) == ascii_lower(d),
        is_space(c),
    ensures
        c == d,
{
    if 'A' <= d && d <= 'Z' {
        assert(((d as u32) + 32) >= 97);
    }
}

proof fn lemma_trim_start_len(s: Seq<char>)
    ensures
        trim_start(s).len() <= s.len(),
        s.len() > 0 && is_space(s[0]) ==> trim_start(s).len() < s.len(),
    decreases s.len(),
{
    if s.len() > 0 && is_space(s[0]) {
        lemma_trim_start_len(s.drop_first());
    }
}

proof fn lemma_trim_end_len(s: Seq<char>)
    ensures
        trim_end(s).len() <= s.len(),
        s.len() > 0 && is_space(s.last()) ==> trim_end(s).len() < s.len(),
    decreases s.len(),
{
    if s.len() > 0 && is_space(s.last()) {
        lemma_trim_end_len(s.drop_last());
    }
}

/// A text equal up to ASCII case to a trimmed text is trimmed too.
proof fn lemma_case_variant_of_trimmed(d: Seq<char>, t: Seq<char>)
    requires
        eq_ignore_ascii_case(d, t),
        trim(t) == t,
    ensures
        trim(d) == d,
{
    assert(ascii_lowercase(d).len() == d.len() && ascii_lowercase(t).len() == t.len());
    lemma_trim_start_len(t);
    lemma_trim_end_len(trim_start(t));
    if d.len() > 0 {
        assert(trim_start(t).len() == t.len());
        assert(!is_space(t[0]));
        assert(trim_start(t) == t);
        assert(trim_end(t).len() == t.len());
        assert(!is_space(t.last()));
        assert(ascii_lowercase(d)[0] == ascii_lowercase(t)[0]);
        assert(ascii_lower(d[0]) == ascii_lower(t[0]));
        let n = d.len() - 1;
        assert(ascii_lowercase(d)[n] == ascii_lowercase(t)[n]);
        assert(ascii_lower(d[n]) == ascii_lower(t[n]));
        assert(t.last() == t[n]);
        if is_space(d[0]) {
            lemma_ascii_lower_keeps_space(d[0], t[0]);
        }
        if is_space(d[n]) {
            lemma_ascii_lower_keeps_space(d[n], t[n]);
        }
        assert(!is_space(d[0]));
        assert(!is_space(d.last()));
        assert(trim_start(d) == d);
        assert(trim_end(d) == d);
    }
}

/// A removal always takes the identifier out of both lists (ASCII case
/// ignored); it is recorded as removed only when it names a built-in preset,
/// so the removal records of a configuration never gain anything else.
pub proof fn lemma_removal_records_only_presets(sec: SectionView, t: Seq<char>)
    ensures
        !list_has_ignoring_case(removed(sec, t).0.bundle_ids, t),
        !list_has_ignoring_case(removed(sec, t).0.names, t),
        !is_preset(t) ==> removed(sec, t).0.disabled_rules == sec.disabled_rules,
{
    lemma_filter_drops_matches(sec.bundle_ids, t);
    lemma_filter_drops_matches(sec.names, t);
}

/// Removing a preset takes effect: once a built-in preset identifier is
/// removed from a configuration, a whitelist built from that configuration
/// protects no target whose name or bundle identifier equals it up to ASCII
/// case, unless the target is in the caller's lineage, is a critical system
/// daemon, or is named by a command-line keep.
pub proof fn lemma_removed_identifier_unprotected(
    before: TaskCleanerConfig,
    after: TaskCleanerConfig,
    identifier: Seq<char>,
    loaded_config_path: Option<String>,
    caller_lineage: Seq<i32>,
    cli_keeps: Seq<String>,
    app: AppTarget,
)
    requires
        !is_critical_daemon(identifier),
        is_preset(trim(identifier)),
        after.whitelist@ == removed(before.whitelist@, trim(identifier)).0,
        !caller_lineage.contains(app.pid),
        !has_ignoring_case(trimmed_text_set(cli_keeps), app.name@),
        !has_ignoring_case(trimmed_text_set(cli_keeps), app.bundle_id@),
        !is_critical_daemon(app.bundle_id@),
        !is_critical_daemon(app.name@),
        eq_ignore_ascii_case(app.name@, trim(identifier)) || eq_ignore_ascii_case(
            app.bundle_id@,
            trim(identifier),
        ),
    ensures
        protection_reason(rules_from(after, loaded_config_path, caller_lineage, cli_keeps), app)
            is None,
{
    let t = trim(identifier);
    crate::text::lemma_trim_idempotent(identifier);
    let r = rules_from(after, loaded_config_path, caller_lineage, cli_keeps);
    let v = after.whitelist.disabled_rules@;
    let d = if list_has_ignoring_case(before.whitelist@.disabled_rules, t) {
        let i = choose|i: int|
            0 <= i < before.whitelist@.disabled_rules.len() && eq_ignore_ascii_case(
                #[trigger] before.whitelist@.disabled_rules[i],
                t,
            );
        assert(texts(v)[i] == v[i]@);
        lemma_case_variant_of_trimmed(v[i]@, t);
        assert(trimmed_text_set(v).contains(trim(v[i]@)));
        v[i]@
    } else {
        assert(texts(v) == before.whitelist@.disabled_rules.push(t));
        assert(texts(v).len() == v.len());
        let k = v.len() - 1;
        assert(texts(v)[k] == t);
        assert(v[k]@ == t);
        assert(trimmed_text_set(v).contains(trim(v[k]@)));
        t
    };
    assert(r.disabled_rules.contains(d));
    assert(eq_ignore_ascii_case(d, t));
    if eq_ignore_ascii_case(app.name@, t) {
        assert(eq_ignore_ascii_case(d, app.name@));
    } else {
        assert(eq_ignore_ascii_case(d, app.bundle_id@));
    }
}

/// What an added entry guarantees: present in its list, not recorded as removed.
pub open spec fn entry_in_effect(sec: SectionView, entry: Seq<char>, as_name: bool) -> bool {
    let t = trim(entry);
    t.len() > 0 ==> {
        &&& list_has_ignoring_case(if as_name { sec.names } else { sec.bundle_ids }, t)
        &&& !list_has_ignoring_case(sec.disabled_rules, t)
    }
}

proof fn lemma_filter_drops_matches(list: Seq<Seq<char>>, t: Seq<char>)
    ensures
        !list_has_ignoring_case(list.filter(not_matching(t)), t),
{
    broadcast use vstd::seq_lib::group_filter_ensures;

    let f = list.filter(not_matching(t));
    assert forall|i: int| 0 <= i < f.len() implies !eq_ignore_ascii_case(#[trigger] f[i], t) by {
        assert(not_matching(t)(f[i]));
    }
}

proof fn lemma_filter_keeps_absence(list: Seq<Seq<char>>, p: spec_fn(Seq<char>) -> bool, x: Seq<char>)
    requires
        !list_has_ignoring_case(list, x),
    ensures
        !list_has_ignoring_case(list.filter(p), x),
{
    broadcast use vstd::seq_lib::group_filter_ensures;

    let f = list.filter(p);
    assert forall|i: int| 0 <= i < f.len() implies !eq_ignore_ascii_case(#[trigger] f[i], x) by {
        assert(f.contains(f[i]));
        list.lemma_filter_contains_rev(p, f[i]);
        let j = choose|j: int| 0 <= j < list.len() && list[j] == f[i];
        assert(!eq_ignore_ascii_case(list[j], x));
    }
}

proof fn lemma_filter_identity(list: Seq<Seq<char>>, t: Seq<char>)
    requires
        !list_has_ignoring_case(list, t),
    ensures
        list.filter(not_matching(t)) == list,
    decreases list.len(),
{
    reveal_with_fuel(Seq::filter, 1);
    if list.len() > 0 {
        assert forall|i: int| 0 <= i < list.drop_last().len() implies !eq_ignore_ascii_case(
            #[trigger] list.drop_last()[i],
            t,
        ) by {
            assert(list.drop_last()[i] == list[i]);
        }
        lemma_filter_identity(list.drop_last(), t);
        assert(!eq_ignore_ascii_case(list[list.len() - 1], t));
        assert(list.drop_last().push(list.last()) == list);
    }
}

proof fn lemma_push_keeps_presence(list: Seq<Seq<char>>, t: Seq<char>, x: Seq<char>)
    ensures
        list_has_ignoring_case(list, x) ==> list_has_ignoring_case(list.push(t), x),
{
    if list_has_ignoring_case(list, x) {
        let i = choose|i: int| 0 <= i < list.len() && eq_ignore_ascii_case(#[trigger] list[i], x);
        assert(list.push(t)[i] == list[i]);
    }
}

/// Adding an entry keeps earlier entries in effect, and puts its own in effect.
proof fn lemma_add_entry_effect(
    sec: SectionView,
    entry: Seq<char>,
    as_name: bool,
    other: Seq<char>,
    other_as_name: bool,
)
    ensures
        entry_in_effect(add_entry(sec, entry, as_name).0, entry, as_name),
        entry_in_effect(sec, other, other_as_name) ==> entry_in_effect(
            add_entry(sec, entry, as_name).0,
            other,
            other_as_name,
        ),
{
    let t = trim(entry);
    let o = trim(other);
    if t.len() > 0 {
        lemma_filter_drops_matches(sec.disabled_rules, t);
        if !list_has_ignoring_case(if as_name { sec.names } else { sec.bundle_ids }, t) {
            let list = if as_name { sec.names } else { sec.bundle_ids };
            assert(list.push(t)[list.len() as int] == t);
            assert(eq_ignore_ascii_case(t, t));
        }
        if entry_in_effect(sec, other, other_as_name) && o.len() > 0 {
            lemma_filter_keeps_absence(sec.disabled_rules, not_matching(t), o);
            lemma_push_keeps_presence(sec.names, t, o);
            lemma_push_keeps_presence(sec.bundle_ids, t, o);
        }
    }
}

proof fn lemma_add_entries_keep(
    sec: SectionView,
    entries: Seq<Seq<char>>,
    as_name: bool,
    other: Seq<char>,
    other_as_name: bool,
)
    requires
        entry_in_effect(sec, other, other_as_name),
    ensures
        entry_in_effect(add_entries(sec, entries, as_name).0, other, other_as_name),
    decreases entries.len(),
{
    if entries.len() > 0 {
        lemma_add_entries_keep(sec, entries.drop_last(), as_name, other, other_as_name);
        lemma_add_entry_effect(
            add_entries(sec, entries.drop_last(), as_name).0,
            entries.last(),
            as_name,
            other,
            other_as_name,
        );
    }
}

proof fn lemma_add_entries_effect(sec: SectionView, entries: Seq<Seq<char>>, as_name: bool)
    ensures
        forall|i: int|
            0 <= i < entries.len() ==> entry_in_effect(
                add_entries(sec, entries, as_name).0,
                #[trigger] entries[i],
                as_name,
            ),
    decreases entries.len(),
{
    if entries.len() > 0 {
        let prev = entries.drop_last();
        let s1 = add_entries(sec, prev, as_name).0;
        lemma_add_entries_effect(sec, prev, as_name);
        assert forall|i: int| 0 <= i < entries.len() implies entry_in_effect(
            add_entries(sec, entries, as_name).0,
            #[trigger] entries[i],
            as_name,
        ) by {
            if i < entries.len() - 1 {
                assert(entries[i] == prev[i]);
            }
            lemma_add_entry_effect(s1, entries.last(), as_name, entries[i], as_name);
        }
    }
}

/// Adding entries puts each of them in effect: after an append, every
/// non-blank entry, trimmed, is in its list (up to ASCII case) and no
/// removal record names it.
pub proof fn lemma_appended_entries_in_effect(
    sec: SectionView,
    bundle_ids: Seq<Seq<char>>,
    names: Seq<Seq<char>>,
)
    ensures
        forall|i: int|
            0 <= i < bundle_ids.len() ==> entry_in_effect(
                appended(sec, bundle_ids, names).0,
                #[trigger] bundle_ids[i],
                false,
            ),
        forall|i: int|
            0 <= i < names.len() ==> entry_in_effect(
                appended(sec, bundle_ids, names).0,
                #[trigger] names[i],
                true,
            ),
{
    let s1 = add_entries(sec, bundle_ids, false).0;
    lemma_add_entries_effect(sec, bundle_ids, false);
    lemma_add_entries_effect(s1, names, true);
    assert forall|i: int| 0 <= i < bundle_ids.len() implies entry_in_effect(
        appended(sec, bundle_ids, names).0,
        #[trigger] bundle_ids[i],
        false,
    ) by {
        lemma_add_entries_keep(s1, names, true, bundle_ids[i], false);
    }
}

proof fn lemma_add_entries_noop(sec: SectionView, entries: Seq<Seq<char>>, as_name: bool)
    requires
        forall|i: int| 0 <= i < entries.len() ==> entry_in_effect(sec, #[trigger] entries[i], as_name),
    ensures
        add_entries(sec, entries, as_name) == (sec, 0nat),
    decreases entries.len(),
{
    if entries.len() > 0 {
        let prev = entries.drop_last();
        assert forall|i: int| 0 <= i < prev.len() implies entry_in_effect(
            sec,
            #[trigger] prev[i],
            as_name,
        ) by {
            assert(prev[i] == entries[i]);
        }
        lemma_add_entries_noop(sec, prev, as_name);
        let t = trim(entries.last());
        assert(entry_in_effect(sec, entries[entries.len() - 1], as_name));
        if t.len() > 0 {
            lemma_filter_identity(sec.disabled_rules, t);
        }
    }
}

/// Appending is idempotent: appending the same entries again adds nothing
/// and changes nothing.
pub proof fn lemma_append_idempotent(
    sec: SectionView,
    bundle_ids: Seq<Seq<char>>,
    names: Seq<Seq<char>>,
)
    ensures
        appended(appended(sec, bundle_ids, names).0, bundle_ids, names) == (
            appended(sec, bundle_ids, names).0,
            0nat,
        ),
{
    let s2 = appended(sec, bundle_ids, names).0;
    lemma_appended_entries_in_effect(sec, bundle_ids, names);
    lemma_add_entries_noop(s2, bundle_ids, false);
    lemma_add_entries_noop(s2, names, true);
}

/// The test for targets the rules protect.
pub open spec fn protected_by(r: WhitelistRules) -> spec_fn(AppTarget) -> bool {
    |a: AppTarget| protection_reason(r, a) is Some
}

/// The test for targets the rules leave unprotected.
pub open spec fn unprotected_by(r: WhitelistRules) -> spec_fn(AppTarget) -> bool {
    |a: AppTarget| protection_reason(r, a) is None
}

/// Splitting a list by protection puts every target in exactly one part.
pub proof fn lemma_split_is_partition(r: WhitelistRules, apps: Seq<AppTarget>)
    ensures
        apps.filter(protected_by(r)).len() + apps.filter(unprotected_by(r)).len() == apps.len(),
    decreases apps.len(),
{
    reveal_with_fuel(Seq::filter, 1);
    if apps.len() > 0 {
        lemma_split_is_partition(r, apps.drop_last());
    }
}

proof fn lemma_case_variant_keeps_char(a: Seq<char>, b: Seq<char>, c: char)
    requires
        eq_ignore_ascii_case(a, b),
        !('A' <= c && c <= 'Z'),
        !('a' <= c && c <= 'z'),
    ensures
        a.contains(c) == b.contains(c),
{
    assert(ascii_lowercase(a).len() == a.len() && ascii_lowercase(b).len() == b.len());
    if a.contains(c) {
        let i = choose|i: int| 0 <= i < a.len() && a[i] == c;
        assert(ascii_lowercase(a)[i] == ascii_lowercase(b)[i]);
        assert(ascii_lower(b[i]) == c);
        assert(b[i] == c);
    }
    if b.contains(c) {
        let i = choose|i: int| 0 <= i < b.len() && b[i] == c;
        assert(ascii_lowercase(a)[i] == ascii_lowercase(b)[i]);
        assert(ascii_lower(a[i]) == c);
        assert(a[i] == c);
    }
}

/// Adding an identifier again adds nothing: once an identifier was added,
/// adding it again, or any variant of it in other ASCII letter case or with
/// other surrounding white space, leaves the whitelist unchanged and reports
/// that nothing joined.
pub proof fn lemma_add_identifier_again_adds_nothing(
    sec: SectionView,
    first: Seq<char>,
    again: Seq<char>,
)
    requires
        eq_ignore_ascii_case(trim(first), trim(again)),
    ensures
        identifier_added(identifier_added(sec, first).0, again) == (
            identifier_added(sec, first).0,
            false,
        ),
{
    let t1 = trim(first);
    let t2 = trim(again);
    crate::text::lemma_trim_idempotent(first);
    crate::text::lemma_trim_idempotent(again);
    lemma_case_variant_keeps_char(t1, t2, '.');
    lemma_case_variant_keeps_char(t1, t2, ' ');
    assert(looks_like_bundle_id(t1) == looks_like_bundle_id(t2));
    let as_name = !looks_like_bundle_id(t1);
    let (bs, ns) = if as_name {
        (Seq::<Seq<char>>::empty(), seq![t1])
    } else {
        (seq![t1], Seq::<Seq<char>>::empty())
    };
    let w1 = appended(sec, bs, ns).0;
    assert(identifier_added(sec, first).0 == w1);
    lemma_appended_entries_in_effect(sec, bs, ns);
    if as_name {
        assert(entry_in_effect(w1, ns[0], true));
    } else {
        assert(entry_in_effect(w1, bs[0], false));
    }
    assert(ascii_lowercase(t1).len() == t1.len() && ascii_lowercase(t2).len() == t2.len());
    if t2.len() > 0 {
        let list = if as_name {
            w1.names
        } else {
            w1.bundle_ids
        };
        let i = choose|i: int| 0 <= i < list.len() && eq_ignore_ascii_case(#[trigger] list[i], t1);
        assert(eq_ignore_ascii_case(list[i], t2));
        if list_has_ignoring_case(w1.disabled_rules, t2) {
            let j = choose|j: int|
                0 <= j < w1.disabled_rules.len() && eq_ignore_ascii_case(
                    #[trigger] w1.disabled_rules[j],
                    t2,
                );
            assert(eq_ignore_ascii_case(w1.disabled_rules[j], t1));
        }
    }
    assert(entry_in_effect(w1, t2, as_name));
    assert forall|i: int| 0 <= i < seq![t2].len() implies entry_in_effect(
        w1,
        #[trigger] seq![t2][i],
        as_name,
    ) by {}
    lemma_add_entries_noop(w1, seq![t2], as_name);
    if as_name {
        assert(add_entries(w1, Seq::<Seq<char>>::empty(), false) == (w1, 0nat));
    } else {
        assert(add_entries(w1, Seq::<Seq<char>>::empty(), true) == (w1, 0nat));
    }
}

} // verus!
