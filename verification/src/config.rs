//! Settings and their cascade: global settings, then project settings, then local
//! settings, each later file overriding what it sets.
use vstd::prelude::*;
use vstd::string::*;
use crate::text::opt_view;

verus! {

/// One settings file's content; an absent field leaves the setting as it was.
#[derive(Debug)]
pub struct Settings {
    /// E.g. "auto", "default", "plan".
    pub permission_mode: Option<String>,
    /// The model to use.
    pub model: Option<String>,
    /// A system prompt that replaces the default one.
    pub custom_system_prompt: Option<String>,
    /// Tools to disable.
    pub disabled_tools: Option<Vec<String>>,
}

/// Settings with their texts as character sequences.
pub struct SettingsView {
    pub permission_mode: Option<Seq<char>>,
    pub model: Option<Seq<char>>,
    pub custom_system_prompt: Option<Seq<char>>,
    pub disabled_tools: Option<Seq<Seq<char>>>,
}

impl View for Settings {
    type V = SettingsView;

    open spec fn view(&self) -> SettingsView {
        SettingsView {
            permission_mode: opt_view(self.permission_mode),
            model: opt_view(self.model),
            custom_system_prompt: opt_view(self.custom_system_prompt),
            disabled_tools: match self.disabled_tools {
                Some(v) => Some(v@.map_values(|s: String| s@)),
                None => None,
            },
        }
    }
}

/// Settings that set nothing.
pub open spec fn no_settings() -> SettingsView {
    SettingsView { permission_mode: None, model: None, custom_system_prompt: None, disabled_tools: None }
}

/// A later optional setting overrides an earlier one when it is present.
pub open spec fn later<A>(earlier: Option<A>, l: Option<A>) -> Option<A> {
    if l is Some { l } else { earlier }
}

/// The settings `a` with `b` merged in: each field that `b` sets overrides `a`'s.
pub open spec fn merged(a: SettingsView, b: SettingsView) -> SettingsView {
    SettingsView {
        permission_mode: later(a.permission_mode, b.permission_mode),
        model: later(a.model, b.model),
        custom_system_prompt: later(a.custom_system_prompt, b.custom_system_prompt),
        disabled_tools: later(a.disabled_tools, b.disabled_tools),
    }
}

/// `a` with the settings of a file merged in when the file exists.
pub open spec fn merged_if(a: SettingsView, file: Option<SettingsView>) -> SettingsView {
    match file {
        Some(f) => merged(a, f),
        None => a,
    }
}

/// The settings of the global file, then the project file, then the local file (each
/// when it exists), merged into settings that set nothing.
pub open spec fn cascaded(
    global: Option<SettingsView>,
    project: Option<SettingsView>,
    local: Option<SettingsView>,
) -> SettingsView {
    merged_if(merged_if(merged_if(no_settings(), global), project), local)
}

/// An optional settings file by its view.
pub open spec fn file_view(f: Option<Settings>) -> Option<SettingsView> {
    match f {
        Some(s) => Some(s@),
        None => None,
    }
}

impl Default for Settings {
    fn default() -> (r: Settings)
        ensures
            r@ == no_settings(),
    {
        Settings { permission_mode: None, model: None, custom_system_prompt: None, disabled_tools: None }
    }
}

impl Settings {
    /// Merges `other` into these settings: each field that `other` sets overwrites this
    /// one.
    pub fn merge(&mut self, other: Settings)
        ensures
            final(self)@ == merged(old(self)@, other@),
    {
        if other.permission_mode.is_some() {
            self.permission_mode = other.permission_mode;
        }
        if other.model.is_some() {
            self.model = other.model;
        }
        if other.custom_system_prompt.is_some() {
            self.custom_system_prompt = other.custom_system_prompt;
        }
        if other.disabled_tools.is_some() {
            self.disabled_tools = other.disabled_tools;
        }
    }

    /// The settings of the global file, then the project file, then the local file,
    /// merged in that order into settings that set nothing.
    pub fn cascade(global: Option<Settings>, project: Option<Settings>, local: Option<Settings>) -> (r: Settings)
        ensures
            r@ == cascaded(file_view(global), file_view(project), file_view(local)),
    {
        let mut s = Settings::default();
        if let Some(g) = global {
            s.merge(g);
        }
        if let Some(p) = project {
            s.merge(p);
        }
        if let Some(l) = local {
            s.merge(l);
        }
        s
    }

    /// The model to use: the one set, or `default_model`.
    pub fn effective_model(&self, default_model: &str) -> (m: String)
        ensures
            m@ == (match self.model { Some(x) => x@, None => default_model@ }),
    {
        match &self.model {
            Some(m) => m.clone(),
            None => String::from_str(default_model),
        }
    }

    /// The system prompt to use: the custom one set, or `default_prompt`.
    pub fn effective_system_prompt(&self, default_prompt: &str) -> (p: String)
        ensures
            p@ == (match self.custom_system_prompt { Some(x) => x@, None => default_prompt@ }),
    {
        match &self.custom_system_prompt {
            Some(p) => p.clone(),
            None => String::from_str(default_prompt),
        }
    }

    /// Makes `model`, when given on the command line, the model to use.
    pub fn override_model(&mut self, model: Option<String>)
        ensures
            final(self)@ == (SettingsView { model: later(old(self)@.model, opt_view(model)), ..old(self)@ }),
    {
        if let Some(m) = model {
            self.model = Some(m);
        }
    }
}

/// Where the settings files are, and the settings they give.
pub struct ConfigManager {
    pub global_config_path: String,
    pub project_config_path: String,
    pub active_settings: Settings,
}

impl ConfigManager {
    /// A manager of the two files whose active settings set nothing yet.
    pub fn new(global_config_path: String, project_config_path: String) -> (r: ConfigManager)
        ensures
            r.global_config_path == global_config_path,
            r.project_config_path == project_config_path,
            r.active_settings@ == no_settings(),
    {
        ConfigManager { global_config_path, project_config_path, active_settings: Settings::default() }
    }

    /// Makes the active settings those of the global file, then the project file, then
    /// the local file beside the project file, as read (`None` for a file that does not
    /// exist).
    pub fn load_cascading(&mut self, global: Option<Settings>, project: Option<Settings>, local: Option<Settings>)
        ensures
            final(self).active_settings@ == cascaded(file_view(global), file_view(project), file_view(local)),
            final(self).global_config_path == old(self).global_config_path,
            final(self).project_config_path == old(self).project_config_path,
    {
        self.active_settings = Settings::cascade(global, project, local);
    }
}

/// Merging settings that set nothing changes nothing, and merging settings into ones that
/// set nothing gives them back.
pub proof fn lemma_merge_identity(a: SettingsView)
    ensures
        merged(a, no_settings()) == a,
        merged(no_settings(), a) == a,
{
}

/// Merging is associative: merging `b` then `c` into `a` is merging into `a` the merge of
/// `c` into `b`. So the cascade does not depend on how its steps are grouped.
pub proof fn lemma_merge_associative(a: SettingsView, b: SettingsView, c: SettingsView)
    ensures
        merged(merged(a, b), c) == merged(a, merged(b, c)),
{
}

/// In the cascade, a setting that the local file sets wins; otherwise the project file's,
/// if it sets it; otherwise the global file's.
pub proof fn lemma_cascade_precedence(g: SettingsView, p: SettingsView, l: SettingsView)
    ensures
        cascaded(Some(g), Some(p), Some(l)) == merged(merged(g, p), l),
        cascaded(Some(g), Some(p), Some(l)).model == later(later(g.model, p.model), l.model),
        cascaded(Some(g), Some(p), Some(l)).permission_mode
            == later(later(g.permission_mode, p.permission_mode), l.permission_mode),
        cascaded(Some(g), Some(p), Some(l)).custom_system_prompt
            == later(later(g.custom_system_prompt, p.custom_system_prompt), l.custom_system_prompt),
        cascaded(Some(g), Some(p), Some(l)).disabled_tools
            == later(later(g.disabled_tools, p.disabled_tools), l.disabled_tools),
{
    lemma_merge_identity(g);
}

} // verus!
