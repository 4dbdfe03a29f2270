//! Plain response shapes of the remote server's management endpoints:
//! servers, profiles, tools, conversations, settings, skills, memories and
//! health. The presentation layer fills and renders them; they carry only
//! plain values.

use vstd::prelude::*;

verus! {

/// The server list response.
#[derive(Debug, Clone)]
pub struct McpServersResponse {
    pub servers: Vec<McpServer>,
}

/// The profile list response.
#[derive(Debug, Clone)]
pub struct ProfilesResponse {
    pub profiles: Vec<Profile>,
    pub current_profile_id: Option<String>,
}

/// One profile in the profile list.
#[derive(Debug, Clone)]
pub struct Profile {
    pub id: String,
    pub name: String,
    pub is_default: bool,
    pub created_at: Option<u64>,
    pub updated_at: Option<u64>,
}

/// The currently active profile, in detail.
#[derive(Debug, Clone)]
pub struct ProfileDetail {
    pub id: String,
    pub name: String,
    pub is_default: bool,
    pub guidelines: Option<String>,
    pub system_prompt: Option<String>,
    pub created_at: Option<u64>,
    pub updated_at: Option<u64>,
}

/// The response to switching profiles.
#[derive(Debug, Clone)]
pub struct SwitchProfileResponse {
    pub success: bool,
    pub profile: Profile,
}

/// The response to a direct tool call.
#[derive(Debug, Clone)]
pub struct ToolCallResponse {
    pub content: Vec<ToolContent>,
    pub is_error: bool,
}

/// One content item of a tool call response.
#[derive(Debug, Clone)]
pub struct ToolContent {
    pub content_type: String,
    pub text: Option<String>,
}

/// One server's status in the server list.
#[derive(Debug, Clone)]
pub struct McpServer {
    pub name: String,
    pub connected: bool,
    pub tool_count: u32,
    pub enabled: bool,
    pub runtime_enabled: bool,
    pub config_disabled: bool,
    pub error: Option<String>,
}

/// The conversation list response.
#[derive(Debug, Clone)]
pub struct ConversationsResponse {
    pub conversations: Vec<ConversationHistoryItem>,
}

/// One conversation summary in the conversation list.
#[derive(Debug, Clone)]
pub struct ConversationHistoryItem {
    pub id: String,
    pub title: String,
    pub created_at: u64,
    pub updated_at: u64,
    pub message_count: u32,
    pub last_message: Option<String>,
    pub preview: Option<String>,
}

/// A tool result recorded in a stored conversation message.
#[derive(Debug, Clone)]
pub struct ConversationToolResult {
    pub success: bool,
    pub content: String,
    pub error: Option<String>,
}

/// Metadata attached to a stored conversation.
#[derive(Debug, Clone)]
pub struct ConversationMetadata {
    pub total_tokens: Option<u32>,
    pub model: Option<String>,
    pub provider: Option<String>,
    pub agent_mode: Option<bool>,
}

/// Application settings as the settings endpoint reports them.
#[derive(Debug, Clone)]
pub struct Settings {
    pub mcp_tools_provider: Option<String>,
    pub mcp_tools_provider_id: Option<String>,
    pub mcp_tools_openai_model: Option<String>,
    pub mcp_tools_groq_model: Option<String>,
    pub mcp_tools_gemini_model: Option<String>,
    pub current_model_preset_id: Option<String>,
    pub available_presets: Option<Vec<SettingsPreset>>,
    pub mcp_require_approval_before_tool_call: Option<bool>,
    pub tts_enabled: Option<bool>,
    pub whatsapp_enabled: Option<bool>,
    pub mcp_max_iterations: Option<u32>,
    pub agent_mode_enabled: Option<bool>,
    pub auto_submit: Option<bool>,
    pub auto_listen: Option<bool>,
    pub theme: Option<String>,
}

/// A model preset as embedded in the settings object.
#[derive(Debug, Clone)]
pub struct SettingsPreset {
    pub id: String,
    pub name: String,
    pub is_built_in: Option<bool>,
}

/// A model preset in the preset list.
#[derive(Debug, Clone)]
pub struct ModelPreset {
    pub id: String,
    pub name: String,
    pub base_url: Option<String>,
    pub is_built_in: bool,
}

/// The settings response used by the preset commands.
#[derive(Debug, Clone)]
pub struct SettingsResponse {
    pub current_model_preset_id: Option<String>,
    pub available_presets: Vec<ModelPreset>,
    pub mcp_tools_provider_id: Option<String>,
    pub mcp_tools_openai_model: Option<String>,
    pub mcp_tools_groq_model: Option<String>,
    pub mcp_tools_gemini_model: Option<String>,
    pub transcript_post_processing_enabled: Option<bool>,
    pub mcp_require_approval_before_tool_call: Option<bool>,
    pub tts_enabled: Option<bool>,
    pub whatsapp_enabled: Option<bool>,
    pub mcp_max_iterations: Option<u32>,
}

/// The response to a settings update.
#[derive(Debug, Clone)]
pub struct SettingsUpdateResponse {
    pub success: bool,
    pub updated: Vec<String>,
}

/// The skill list response.
#[derive(Debug, Clone)]
pub struct SkillsResponse {
    pub skills: Vec<Skill>,
}

/// One skill in the skill list.
#[derive(Debug, Clone)]
pub struct Skill {
    pub id: String,
    pub name: String,
    pub description: String,
    pub instructions: String,
    pub enabled: bool,
    pub created_at: u64,
    pub updated_at: u64,
    pub source: Option<String>,
    pub file_path: Option<String>,
}

/// The memory list response.
#[derive(Debug, Clone)]
pub struct MemoriesResponse {
    pub memories: Vec<Memory>,
}

/// One memory in the memory list.
#[derive(Debug, Clone)]
pub struct Memory {
    pub id: String,
    pub content: String,
    pub importance: u32,
    pub tags: Vec<String>,
    pub created_at: u64,
    pub profile_id: Option<String>,
}

/// The health endpoint's report.
#[derive(Debug, Clone)]
pub struct HealthStatus {
    pub status: String,
    pub version: Option<String>,
    pub uptime: Option<u64>,
}

/// Two characters match ignoring ASCII case: equal, or the same letter in
/// the two cases.
pub open spec fn spec_char_eq_nocase(a: char, b: char) -> bool {
    a == b || (65 <= a as u32 <= 90 && a as u32 + 32 == b as u32) || (65 <= b as u32 <= 90 && b
        as u32 + 32 == a as u32)
}

/// Two texts match ignoring ASCII case.
pub open spec fn spec_str_eq_nocase(a: Seq<char>, b: Seq<char>) -> bool {
    a.len() == b.len() && forall|i: int| 0 <= i < a.len() ==> spec_char_eq_nocase(a[i], b[i])
}

/// Whether two characters match ignoring ASCII case; see
/// `spec_char_eq_nocase`.
fn char_eq_nocase(a: char, b: char) -> (r: bool)
    ensures
        r == spec_char_eq_nocase(a, b),
{
    let au = a as u32;
    let bu = b as u32;
    a == b || (65 <= au && au <= 90 && au + 32 == bu) || (65 <= bu && bu <= 90 && bu + 32 == au)
}

/// Whether two texts match ignoring ASCII case; see `spec_str_eq_nocase`.
fn str_eq_nocase(a: &str, b: &str) -> (r: bool)
    ensures
        r == spec_str_eq_nocase(a@, b@),
{
    let n = a.unicode_len();
    if n != b.unicode_len() {
        return false;
    }
    let mut i: usize = 0;
    while i < n
        invariant
            n == a@.len(),
            n == b@.len(),
            i <= n,
            forall|k: int| 0 <= k < i as int ==> spec_char_eq_nocase(#[trigger] a@[k], b@[k]),
        decreases n - i,
    {
        if !char_eq_nocase(a.get_char(i), b.get_char(i)) {
            return false;
        }
        i = i + 1;
    }
    true
}

/// The identifier of the first preset whose name matches ignoring case.
pub open spec fn spec_first_preset_by_name(presets: Seq<ModelPreset>, q: Seq<char>) -> Option<
    Seq<char>,
>
    decreases presets.len(),
{
    if presets.len() == 0 {
        None
    } else if spec_str_eq_nocase(presets[0].name@, q) {
        Some(presets[0].id@)
    } else {
        spec_first_preset_by_name(presets.drop_first(), q)
    }
}

/// How a preset name or identifier resolves: an exact identifier wins, a
/// case-insensitive name comes second, and nothing else resolves.
pub open spec fn spec_resolve_preset(presets: Seq<ModelPreset>, q: Seq<char>) -> Option<Seq<char>> {
    if exists|i: int| 0 <= i < presets.len() && (#[trigger] presets[i].id)@ == q {
        Some(q)
    } else {
        spec_first_preset_by_name(presets, q)
    }
}

/// Resolves a preset name or identifier to the preset identifier; see
/// `spec_resolve_preset`. `None` says that no preset matches.
pub fn resolve_preset_id(presets: &Vec<ModelPreset>, name_or_id: &str) -> (r: Option<String>)
    ensures
        (match r {
            Some(s) => Some(s@),
            None => None,
        }) == spec_resolve_preset(presets@, name_or_id@),
{
    let mut i: usize = 0;
    while i < presets.len()
        invariant
            i <= presets@.len(),
            forall|k: int| 0 <= k < i as int ==> (#[trigger] presets@[k].id)@ != name_or_id@,
        decreases presets@.len() - i,
    {
        if crate::json::str_eq(presets[i].id.as_str(), name_or_id) {
            return Some(name_or_id.to_owned());
        }
        i = i + 1;
    }
    let mut j: usize = 0;
    proof {
        assert(presets@.skip(0) =~= presets@);
    }
    while j < presets.len()
        invariant
            j <= presets@.len(),
            forall|k: int| 0 <= k < presets@.len() ==> (#[trigger] presets@[k].id)@ != name_or_id@,
            spec_first_preset_by_name(presets@, name_or_id@) == spec_first_preset_by_name(
                presets@.skip(j as int),
                name_or_id@,
            ),
        decreases presets@.len() - j,
    {
        proof {
            assert(presets@.skip(j as int)[0] == presets@[j as int]);
            assert(presets@.skip(j as int).drop_first() =~= presets@.skip(j + 1));
        }
        if str_eq_nocase(presets[j].name.as_str(), name_or_id) {
            return Some(presets[j].id.clone());
        }
        j = j + 1;
    }
    proof {
        assert(presets@.skip(presets@.len() as int) =~= Seq::<ModelPreset>::empty());
    }
    None
}

/// The identifier of the first profile whose name matches ignoring case.
pub open spec fn spec_first_profile_by_name(profiles: Seq<Profile>, q: Seq<char>) -> Option<
    Seq<char>,
>
    decreases profiles.len(),
{
    if profiles.len() == 0 {
        None
    } else if spec_str_eq_nocase(profiles[0].name@, q) {
        Some(profiles[0].id@)
    } else {
        spec_first_profile_by_name(profiles.drop_first(), q)
    }
}

/// How a profile name or identifier resolves; the same reading as
/// `spec_resolve_preset`.
pub open spec fn spec_resolve_profile(profiles: Seq<Profile>, q: Seq<char>) -> Option<Seq<char>> {
    if exists|i: int| 0 <= i < profiles.len() && (#[trigger] profiles[i].id)@ == q {
        Some(q)
    } else {
        spec_first_profile_by_name(profiles, q)
    }
}

/// Resolves a profile name or identifier to the profile identifier; see
/// `spec_resolve_profile`. `None` says that no profile matches.
pub fn resolve_profile_id(profiles: &Vec<Profile>, name_or_id: &str) -> (r: Option<String>)
    ensures
        (match r {
            Some(s) => Some(s@),
            None => None,
        }) == spec_resolve_profile(profiles@, name_or_id@),
{
    let mut i: usize = 0;
    while i < profiles.len()
        invariant
            i <= profiles@.len(),
            forall|k: int| 0 <= k < i as int ==> (#[trigger] profiles@[k].id)@ != name_or_id@,
        decreases profiles@.len() - i,
    {
        if crate::json::str_eq(profiles[i].id.as_str(), name_or_id) {
            return Some(name_or_id.to_owned());
        }
        i = i + 1;
    }
    let mut j: usize = 0;
    proof {
        assert(profiles@.skip(0) =~= profiles@);
    }
    while j < profiles.len()
        invariant
            j <= profiles@.len(),
            forall|k: int|
                0 <= k < profiles@.len() ==> (#[trigger] profiles@[k].id)@ != name_or_id@,
            spec_first_profile_by_name(profiles@, name_or_id@) == spec_first_profile_by_name(
                profiles@.skip(j as int),
                name_or_id@,
            ),
        decreases profiles@.len() - j,
    {
        proof {
            assert(profiles@.skip(j as int)[0] == profiles@[j as int]);
            assert(profiles@.skip(j as int).drop_first() =~= profiles@.skip(j + 1));
        }
        if str_eq_nocase(profiles[j].name.as_str(), name_or_id) {
            return Some(profiles[j].id.clone());
        }
        j = j + 1;
    }
    proof {
        assert(profiles@.skip(profiles@.len() as int) =~= Seq::<Profile>::empty());
    }
    None
}

} // verus!
