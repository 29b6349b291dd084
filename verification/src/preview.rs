//! Rows of the preview report.

use vstd::prelude::*;
use vstd::string::*;

use crate::app::AppTarget;
use crate::whitelist::WhitelistMatch;

verus! {

/// A protected application as the preview lists it.
#[derive(Debug)]
pub struct ProtectedAppEntry {
    pub pid: i32,
    pub name: String,
    pub bundle_id: String,
    pub tier: String,
    pub rule: String,
}

/// An application the cleanup would terminate, with whether it is alive.
#[derive(Debug)]
pub struct TargetAppEntry {
    pub pid: i32,
    pub name: String,
    pub bundle_id: String,
    pub is_alive: bool,
}

impl ProtectedAppEntry {
    /// The row of a protected application: its identity, the tier label and
    /// the rule that matched.
    pub fn from_match(app: &AppTarget, matched: &WhitelistMatch) -> (r: Self)
        ensures
            r.pid == app.pid,
            r.name@ == app.name@,
            r.bundle_id@ == app.bundle_id@,
            r.tier@ == matched.tier_label@,
            r.rule@ == matched.matched_rule@,
    {
        ProtectedAppEntry {
            pid: app.pid,
            name: app.name.clone(),
            bundle_id: app.bundle_id.clone(),
            tier: matched.tier_label.clone(),
            rule: matched.matched_rule.clone(),
        }
    }
}

impl TargetAppEntry {
    /// The row of an application to terminate.
    pub fn from_target(app: &AppTarget, is_alive: bool) -> (r: Self)
        ensures
            r.pid == app.pid,
            r.name@ == app.name@,
            r.bundle_id@ == app.bundle_id@,
            r.is_alive == is_alive,
    {
        TargetAppEntry {
            pid: app.pid,
            name: app.name.clone(),
            bundle_id: app.bundle_id.clone(),
            is_alive,
        }
    }
}

/// Where the rules of a preview come from, in words.
pub open spec fn config_source_text_spec(path: Option<Seq<char>>) -> Seq<char> {
    match path {
        Some(p) => "已加载配置: "@ + p,
        None => "内置默认规则 (无外部配置文件)"@,
    }
}

/// Says where the rules come from: the configuration file shown, or the
/// built-in defaults.
pub fn config_source_text(path: Option<&str>) -> (r: String)
    ensures
        r@ == config_source_text_spec(
            match path {
                Some(p) => Some(p@),
                None => None,
            },
        ),
{
    match path {
        Some(p) => {
            let mut out = String::from_str("已加载配置: ");
            out.append(p);
            out
        },
        None => String::from_str("内置默认规则 (无外部配置文件)"),
    }
}

} // verus!
