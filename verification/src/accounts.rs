//! Accounts of coding agents, the limits of their plans, and the settings that
//! are kept outside the session.
use vstd::prelude::*;
use vstd::string::*;
use vstd::utf8::{decode_utf8, encode_utf8, is_char_boundary, valid_utf8};

use crate::app::{
    AgentAuthStatus, AgentAuthentication, BlackholesApp, PlanUsage, ProviderPlanUsage,
};
use crate::clock::{current_time, fresh_id, Time};
use crate::documents::instructed_tasks;
use crate::effects::{AgentProvider, Effect, SurfaceTarget};
use crate::ids::Id;
use crate::labels::NoteSaveState;
use crate::model::{
    find_workspace, in_language, tr, workspace_at, AgentKind, Language,
};
use crate::text::{
    characters, contains, is_blank, join2, join3, join4, lowercase, lowered, occurs_in, same_text,
    string_of, trim, trimmed,
};

verus! {

// ---------------------------------------------------------------------------
// Plans
// ---------------------------------------------------------------------------
/// The name of the plan of an account.
pub open spec fn plan_name(display_name: Seq<char>, usage: Option<ProviderPlanUsage>, language: Language) -> Seq<char> {
    match usage {
        Some(ProviderPlanUsage { subscription_type: Some(plan), .. }) => display_name + " · "@
            + plan@,
        _ => in_language(language, "Not reported"@, "No reportado"@),
    }
}

/// The name of the plan of an account.
pub fn provider_plan_name(
    display_name: &str,
    usage: &Option<ProviderPlanUsage>,
    language: Language,
) -> (result: String)
    ensures
        result@ == plan_name(display_name@, *usage, language),
{
    if let Some(known) = usage {
        if let Some(plan) = &known.subscription_type {
            return join3(display_name, " · ", plan.as_str());
        }
    }
    tr(language, "Not reported", "No reportado").to_string()
}

/// What is known of the limits of an account.
pub open spec fn plan_detail(usage: Option<ProviderPlanUsage>, language: Language) -> Seq<char> {
    match usage {
        Some(known) => if known.rate_limits_available {
            in_language(
                language,
                "Limits reported by the selected account"@,
                "Límites reportados por la cuenta seleccionada"@,
            )
        } else {
            in_language(
                language,
                "This account or provider did not report plan limits"@,
                "Esta cuenta o proveedor no reportó límites del plan"@,
            )
        },
        None => in_language(
            language,
            "Refresh to query the selected account"@,
            "Actualiza para consultar la cuenta seleccionada"@,
        ),
    }
}

/// What is known of the limits of an account.
pub fn provider_plan_detail(usage: &Option<ProviderPlanUsage>, language: Language) -> (result:
    &'static str)
    ensures
        result@ == plan_detail(*usage, language),
{
    match usage {
        Some(known) => {
            if known.rate_limits_available {
                tr(
                    language,
                    "Limits reported by the selected account",
                    "Límites reportados por la cuenta seleccionada",
                )
            } else {
                tr(
                    language,
                    "This account or provider did not report plan limits",
                    "Esta cuenta o proveedor no reportó límites del plan",
                )
            }
        },
        None => tr(
            language,
            "Refresh to query the selected account",
            "Actualiza para consultar la cuenta seleccionada",
        ),
    }
}

impl BlackholesApp {
    /// `after` is `before` with the limits of the account being read, unless they
    /// are already or the settings are not shown.
    pub open spec fn reads_plan(before: Self, after: Self) -> bool {
        if !before.surface.show_settings || before.plan_usage.refreshing {
            after == before
        } else {
            Self::requests(
                BlackholesApp {
                    plan_usage: PlanUsage {
                        refreshing: true,
                        refresh_error: false,
                        ..before.plan_usage
                    },
                    ..before
                },
                after,
                seq![Effect::ReadPlanUsage { generation: before.plan_usage.generation }]
                    + before.publishes_surface() + seq![Effect::Redraw],
            )
        }
    }

    /// Reads the limits of the account.
    pub fn refresh_plan_usage(&mut self)
        ensures
            Self::reads_plan(*old(self), *final(self)),
    {
        let ghost before = *self;
        if !self.surface.show_settings || self.plan_usage.refreshing {
            return ;
        }
        self.plan_usage.refreshing = true;
        self.plan_usage.refresh_error = false;
        let generation: u64 = self.plan_usage.generation;
        self.emit(Effect::ReadPlanUsage { generation });
        self.hydrate_active_workspace_surface();
        self.notify();
        assert(self.effects@ =~= before.effects@ + (seq![
            Effect::ReadPlanUsage { generation: before.plan_usage.generation },
        ] + before.publishes_surface() + seq![Effect::Redraw]));
    }

    /// What is known of the limits once the account changes: nothing. What is
    /// read for the earlier account no longer counts.
    pub open spec fn plan_forgotten(self) -> Self {
        BlackholesApp {
            plan_usage: PlanUsage {
                refreshing: false,
                refresh_error: false,
                active: None,
                updated_at: None,
                generation: Self::next(self.plan_usage.generation),
            },
            ..self
        }
    }

    /// Forgets the limits of the account and reads them again.
    pub fn invalidate_plan_usage(&mut self)
        ensures
            Self::reads_plan(old(self).plan_forgotten(), *final(self)),
    {
        let ghost before = *self;
        self.plan_usage.generation = self.plan_usage.generation.wrapping_add(1);
        self.plan_usage.active = None;
        self.plan_usage.updated_at = None;
        self.plan_usage.refreshing = false;
        self.plan_usage.refresh_error = false;
        assert(*self == before.plan_forgotten());
        self.refresh_plan_usage();
    }

    /// The limits that were read, where they are of the account that is selected.
    pub open spec fn plan_known(self, same_account: bool, result: Option<ProviderPlanUsage>, now: Time) -> Self {
        BlackholesApp {
            plan_usage: match result {
                Some(usage) if same_account => PlanUsage {
                    refreshing: false,
                    active: Some(usage),
                    updated_at: Some(now),
                    ..self.plan_usage
                },
                _ => PlanUsage { refreshing: false, refresh_error: true, ..self.plan_usage },
            },
            ..self
        }
    }

    /// `after` is `before` with the limits that were read at a time taken in.
    pub open spec fn takes_plan_at(
        before: Self,
        after: Self,
        same_account: bool,
        result: Option<ProviderPlanUsage>,
        now: Time,
    ) -> bool {
        let known = before.plan_known(same_account, result, now);
        Self::requests(known, after, known.publishes_surface() + seq![Effect::Redraw])
    }

    /// `after` is `before` with the limits that were read taken in, unless they
    /// were read for an earlier account.
    pub open spec fn takes_plan(
        before: Self,
        after: Self,
        generation: u64,
        same_account: bool,
        result: Option<ProviderPlanUsage>,
    ) -> bool {
        if before.plan_usage.generation != generation {
            after == before
        } else {
            exists|now: Time| #[trigger]
                Self::takes_plan_at(before, after, same_account, result, now)
        }
    }

    /// The limits of an account were read. `same_account` is whether that account
    /// is still selected, `result` the limits where they could be read. What was
    /// read for an earlier account does nothing.
    pub fn finish_plan_usage(
        &mut self,
        generation: u64,
        same_account: bool,
        result: Option<ProviderPlanUsage>,
    )
        ensures
            Self::takes_plan(*old(self), *final(self), generation, same_account, result),
    {
        let ghost before = *self;
        let ghost read = result;
        if self.plan_usage.generation != generation {
            return ;
        }
        let now: Time = current_time();
        self.plan_usage.refreshing = false;
        match result {
            Some(usage) => {
                if same_account {
                    self.plan_usage.active = Some(usage);
                    self.plan_usage.updated_at = Some(now);
                } else {
                    self.plan_usage.refresh_error = true;
                }
            },
            None => {
                self.plan_usage.refresh_error = true;
            },
        }
        let ghost known = *self;
        assert(known == before.plan_known(same_account, read, now));
        self.hydrate_active_workspace_surface();
        self.notify();
        assert(self.effects@ =~= known.effects@ + (known.publishes_surface() + seq![Effect::Redraw]));
        assert(Self::takes_plan_at(before, *self, same_account, read, now));
    }
}

/// After a change of account, what was being read for the earlier account does
/// nothing, whatever its outcome is; no limits are known until new ones are read.
pub proof fn law_plan_of_selected_account(
    before: BlackholesApp,
    changed: BlackholesApp,
    after: BlackholesApp,
    same_account: bool,
    result: Option<ProviderPlanUsage>,
)
    requires
        BlackholesApp::reads_plan(before.plan_forgotten(), changed),
        BlackholesApp::takes_plan(
            changed,
            after,
            before.plan_usage.generation,
            same_account,
            result,
        ),
    ensures
        after == changed,
        after.plan_usage.active is None,
{
}

// ---------------------------------------------------------------------------
// Providers
// ---------------------------------------------------------------------------
/// The provider whose account an agent uses.
pub open spec fn provider_of(agent: AgentKind) -> Option<AgentProvider> {
    match agent {
        AgentKind::Claude => Some(AgentProvider::Claude),
        AgentKind::Codex => Some(AgentProvider::Codex),
        AgentKind::Gemini => Some(AgentProvider::Gemini),
        AgentKind::OpenCode => Some(AgentProvider::OpenCode),
        AgentKind::Shell => None,
        AgentKind::Antigravity => None,
    }
}

/// The provider whose account an agent uses.
pub fn agent_account(agent: AgentKind) -> (result: Option<AgentProvider>)
    ensures
        result == provider_of(agent),
{
    match agent {
        AgentKind::Claude => Some(AgentProvider::Claude),
        AgentKind::Codex => Some(AgentProvider::Codex),
        AgentKind::Gemini => Some(AgentProvider::Gemini),
        AgentKind::OpenCode => Some(AgentProvider::OpenCode),
        AgentKind::Shell => None,
        AgentKind::Antigravity => None,
    }
}

/// The directory that an agent keeps its account in: that of the isolated
/// profile of its provider, where that is the one in use.
pub fn terminal_agent_profile(agent: AgentKind, isolated: bool, profile: String) -> (result: Option<
    String,
>)
    ensures
        result == if provider_of(agent) is Some && isolated {
            Some(profile)
        } else {
            None
        },
{
    if agent_account(agent).is_some() && isolated {
        Some(profile)
    } else {
        None
    }
}

/// Whether the agents of a project run without asking; only where the setting of
/// the project says so.
pub fn project_terminal_skip_permissions(setting: &Option<String>) -> (result: bool)
    ensures
        result == (setting matches Some(value) && value@ == "true"@),
{
    match setting {
        Some(value) => same_text(value.as_str(), "true"),
        None => false,
    }
}

/// The folder for new projects: the one that was chosen, else the usual one.
pub fn projects_root(setting: Option<String>, usual: String) -> (result: String)
    ensures
        result == match setting {
            Some(path) => path,
            None => usual,
        },
{
    match setting {
        Some(path) => path,
        None => usual,
    }
}

impl BlackholesApp {
    /// `after` is `before` with the account changed, and drawn again.
    pub open spec fn changes_account(before: Self, after: Self) -> bool {
        exists|read: BlackholesApp| #[trigger]
            Self::reads_plan(before.plan_forgotten(), read) && Self::requests(
                read,
                after,
                seq![Effect::Redraw],
            )
    }

    fn change_account(&mut self)
        ensures
            Self::changes_account(*old(self), *final(self)),
    {
        self.invalidate_plan_usage();
        self.notify();
    }

    /// Another provider was chosen. `saved` is what came of storing the choice.
    pub fn set_agent_provider(&mut self, display_name: &str, saved: Result<(), String>)
        ensures
            exists|told: BlackholesApp|
                #![trigger Self::changes_account(told, *final(self))]
                Self::changes_account(told, *final(self)) && match saved {
                    Ok(_) => Self::reports(
                        *old(self),
                        told,
                        old(self).text(
                            "Agent provider updated"@,
                            "Proveedor de agentes actualizado"@,
                        ) + ": "@ + display_name@,
                        false,
                    ),
                    Err(error) => Self::reports(
                        *old(self),
                        told,
                        "Could not save the agent provider: "@ + error@,
                        true,
                    ),
                },
    {
        match saved {
            Ok(_) => {
                let message = join3(
                    self.tr("Agent provider updated", "Proveedor de agentes actualizado"),
                    ": ",
                    display_name,
                );
                self.set_status(message, false);
            },
            Err(error) => {
                let message = join2("Could not save the agent provider: ", error.as_str());
                self.set_status(message, true);
            },
        }
        let ghost told = *self;
        self.change_account();
        assert(Self::changes_account(told, *self));
    }

    /// Another profile was chosen. `saved` is what came of storing the choice.
    pub fn set_agent_auth_mode(&mut self, saved: Result<(), String>)
        ensures
            exists|told: BlackholesApp|
                #![trigger Self::changes_account(told, *final(self))]
                Self::changes_account(told, *final(self)) && match saved {
                    Ok(_) => Self::reports(
                        *old(self),
                        told,
                        old(self).text(
                            "Authentication profile updated for new terminal sessions"@,
                            "Perfil de autenticación actualizado para las nuevas sesiones de terminal"@,
                        ),
                        false,
                    ),
                    Err(error) => Self::reports(
                        *old(self),
                        told,
                        "Could not save the authentication profile: "@ + error@,
                        true,
                    ),
                },
    {
        match saved {
            Ok(_) => {
                let message = self.tr(
                    "Authentication profile updated for new terminal sessions",
                    "Perfil de autenticación actualizado para las nuevas sesiones de terminal",
                ).to_string();
                self.set_status(message, false);
            },
            Err(error) => {
                let message = join2("Could not save the authentication profile: ", error.as_str());
                self.set_status(message, true);
            },
        }
        let ghost told = *self;
        self.change_account();
        assert(Self::changes_account(told, *self));
    }
}

// ---------------------------------------------------------------------------
// Signing in
// ---------------------------------------------------------------------------
/// What a sign-in reports.
#[derive(Debug)]
pub enum AgentAuthEvent {
    Output { text: String },
    OpenUrl { url: String },
    Completed,
    Error { message: String },
}

/// The most that is kept of the output of a sign-in, in bytes.
pub const AUTH_OUTPUT_LIMIT: usize = 65_536;

/// What is left of the output when it grows beyond the limit, in bytes.
pub const AUTH_OUTPUT_KEPT: usize = 32_768;

/// The first position at or after `from` where a character begins or the text
/// ends.
pub open spec fn boundary_from(bytes: Seq<u8>, from: int) -> int
    decreases bytes.len() - from,
{
    if from >= bytes.len() || is_char_boundary(bytes, from) {
        from
    } else {
        boundary_from(bytes, from + 1)
    }
}

/// The output that is kept: all of it up to the limit, else its last characters.
pub open spec fn kept_output(output: Seq<char>) -> Seq<char> {
    let bytes = encode_utf8(output);
    if bytes.len() <= AUTH_OUTPUT_LIMIT {
        output
    } else {
        decode_utf8(
            bytes.subrange(
                boundary_from(bytes, bytes.len() - AUTH_OUTPUT_KEPT),
                bytes.len() as int,
            ),
        )
    }
}

proof fn lemma_boundary_from(bytes: Seq<u8>, from: int)
    requires
        valid_utf8(bytes),
        0 <= from <= bytes.len(),
    ensures
        from <= boundary_from(bytes, from) <= bytes.len(),
        is_char_boundary(bytes, boundary_from(bytes, from)),
    decreases bytes.len() - from,
{
    if from == bytes.len() {
        vstd::utf8::is_char_boundary_start_end_of_seq(bytes);
    } else if !is_char_boundary(bytes, from) {
        lemma_boundary_from(bytes, from + 1);
    }
}

fn keep_output(output: String) -> (result: String)
    ensures
        result@ == kept_output(output@),
{
    let size: usize = output.as_str().as_bytes().len();
    if size <= AUTH_OUTPUT_LIMIT {
        return output;
    }
    let ghost bytes = encode_utf8(output@);
    let mut from: usize = size - AUTH_OUTPUT_KEPT;
    proof {
        vstd::utf8::encode_utf8_valid_utf8(output@);
        lemma_boundary_from(bytes, from as int);
    }
    while !output.as_str().is_char_boundary(from)
        invariant
            bytes == encode_utf8(output@),
            size == bytes.len(),
            valid_utf8(bytes),
            from <= size,
            boundary_from(bytes, from as int) == boundary_from(bytes, size - AUTH_OUTPUT_KEPT),
        decreases size - from,
    {
        proof {
            lemma_boundary_from(bytes, from as int);
        }
        from += 1;
    }
    let (_, kept) = output.as_str().split_at(from);
    proof {
        assert(boundary_from(bytes, from as int) == from);
        vstd::utf8::encode_utf8_decode_utf8(kept@);
    }
    kept.to_string()
}

/// What is kept of the output is its end, and never more than the limit.
pub proof fn law_output_limit(output: Seq<char>)
    ensures
        encode_utf8(kept_output(output)).len() <= AUTH_OUTPUT_LIMIT,
        kept_output(output).len() <= output.len(),
        kept_output(output) == output.skip(output.len() - kept_output(output).len()),
{
    let bytes = encode_utf8(output);
    if bytes.len() <= AUTH_OUTPUT_LIMIT {
        assert(output.skip(0) =~= output);
    } else {
        let from = bytes.len() - AUTH_OUTPUT_KEPT;
        vstd::utf8::encode_utf8_valid_utf8(output);
        lemma_boundary_from(bytes, from);
        let at = boundary_from(bytes, from);
        let tail = bytes.subrange(at, bytes.len() as int);
        vstd::utf8::valid_utf8_split(bytes, at);
        vstd::utf8::decode_utf8_split(bytes, at);
        vstd::utf8::encode_utf8_decode_utf8(output);
        vstd::utf8::decode_utf8_encode_utf8(tail);
        let head = decode_utf8(bytes.subrange(0, at));
        assert(output == head + decode_utf8(tail));
        assert(output.skip(head.len() as int) =~= decode_utf8(tail));
    }
}

/// The output asks the user for a code.
pub open spec fn asks_for_code(output: Seq<char>) -> bool {
    let text = lowered(output);
    &&& occurs_in(text, "paste"@) || occurs_in(text, "enter"@) || occurs_in(text, "introduce"@)
        || occurs_in(text, "pega"@)
    &&& occurs_in(text, "code"@) || occurs_in(text, "token"@) || occurs_in(text, "código"@)
}

fn requests_code(output: &str) -> (result: bool)
    ensures
        result == asks_for_code(output@),
{
    let text = characters(lowercase(output).as_str());
    let verb: bool = contains(&text, "paste") || contains(&text, "enter") || contains(
        &text,
        "introduce",
    ) || contains(&text, "pega");
    let object: bool = contains(&text, "code") || contains(&text, "token") || contains(
        &text,
        "código",
    );
    verb && object
}

/// The lines of a text.
pub open spec fn lines_of(text: Seq<char>) -> Seq<Seq<char>>
    decreases text.len(),
{
    if text.len() == 0 {
        seq![Seq::<char>::empty()]
    } else {
        let earlier = lines_of(text.drop_last());
        if text.last() == '\n' {
            earlier.push(Seq::empty())
        } else {
            earlier.update(earlier.len() - 1, earlier.last().push(text.last()))
        }
    }
}

/// The line says something that is not a link.
pub open spec fn is_useful(line: Seq<char>) -> bool {
    trimmed(line).len() > 0 && !occurs_in(trimmed(line), "https://"@) && !occurs_in(
        trimmed(line),
        "http://"@,
    )
}

/// The last useful line, without the space around it.
pub open spec fn last_useful(lines: Seq<Seq<char>>) -> Option<Seq<char>>
    decreases lines.len(),
{
    if lines.len() == 0 {
        None
    } else if is_useful(lines.last()) {
        Some(trimmed(lines.last()))
    } else {
        last_useful(lines.drop_last())
    }
}

/// The most that is told of the output of a sign-in that failed.
pub const AUTH_EXCERPT_LIMIT: usize = 280;

pub open spec fn excerpt(line: Seq<char>) -> Seq<char> {
    if line.len() <= AUTH_EXCERPT_LIMIT {
        line
    } else {
        line.take(AUTH_EXCERPT_LIMIT as int)
    }
}

/// What is told of a sign-in that failed.
pub open spec fn failure_detail(output: Seq<char>, message: Seq<char>) -> Seq<char> {
    match last_useful(lines_of(output)) {
        Some(line) if excerpt(line) != message => message + ". "@ + excerpt(line),
        _ => message,
    }
}

proof fn lemma_lines_nonempty(text: Seq<char>)
    ensures
        lines_of(text).len() > 0,
    decreases text.len(),
{
    if text.len() > 0 {
        lemma_lines_nonempty(text.drop_last());
    }
}

fn split_lines(text: &str) -> (result: Vec<Vec<char>>)
    ensures
        result@.len() == lines_of(text@).len(),
        forall|i: int| 0 <= i < result@.len() ==> (#[trigger] result@[i])@ == lines_of(text@)[i],
{
    let source = characters(text);
    let mut result: Vec<Vec<char>> = Vec::new();
    let mut current: Vec<char> = Vec::new();
    let mut index: usize = 0;
    assert(source@.take(0) =~= Seq::<char>::empty());
    assert(current@ =~= Seq::<char>::empty());
    while index < source.len()
        invariant
            source@ == text@,
            index <= source@.len(),
            result@.len() + 1 == lines_of(text@.take(index as int)).len(),
            forall|i: int|
                0 <= i < result@.len() ==> (#[trigger] result@[i])@ == lines_of(
                    text@.take(index as int),
                )[i],
            current@ == lines_of(text@.take(index as int)).last(),
        decreases source@.len() - index,
    {
        let ghost done = text@.take(index as int);
        let ghost more = text@.take(index + 1);
        proof {
            assert(more.drop_last() =~= done);
            assert(more.last() == text@[index as int]);
            lemma_lines_nonempty(done);
        }
        let character: char = source[index];
        if character == '\n' {
            let mut line: Vec<char> = Vec::new();
            std::mem::swap(&mut line, &mut current);
            result.push(line);
            assert(current@ =~= Seq::<char>::empty());
        } else {
            current.push(character);
        }
        index += 1;
    }
    assert(text@.take(index as int) =~= text@);
    result.push(current);
    result
}

fn find_useful(output: &str) -> (result: Option<String>)
    ensures
        match result {
            Some(line) => last_useful(lines_of(output@)) == Some(line@),
            None => last_useful(lines_of(output@)) is None,
        },
{
    let lines = split_lines(output);
    let ghost all = lines_of(output@);
    let mut left: usize = lines.len();
    assert(all.take(left as int) =~= all);
    while left > 0
        invariant
            left <= lines@.len(),
            all == lines_of(output@),
            lines@.len() == all.len(),
            forall|i: int| 0 <= i < lines@.len() ==> (#[trigger] lines@[i])@ == all[i],
            last_useful(all) == last_useful(all.take(left as int)),
        decreases left,
    {
        let found = &lines[left - 1];
        let line = trim(string_of(found, 0, found.len()).as_str());
        assert(found@.subrange(0, found@.len() as int) =~= found@);
        let content = characters(line.as_str());
        proof {
            assert(all.take(left as int).last() == all[left - 1]);
            assert(all.take(left as int).drop_last() =~= all.take(left - 1));
        }
        if content.len() > 0 && !contains(&content, "https://") && !contains(&content, "http://") {
            return Some(line);
        }
        left -= 1;
    }
    None
}

fn take_excerpt(line: &str) -> (result: String)
    ensures
        result@ == excerpt(line@),
{
    let source = characters(line);
    if source.len() <= AUTH_EXCERPT_LIMIT {
        return line.to_string();
    }
    assert(line@.subrange(0, AUTH_EXCERPT_LIMIT as int) =~= line@.take(AUTH_EXCERPT_LIMIT as int));
    string_of(&source, 0, AUTH_EXCERPT_LIMIT)
}

fn describe_failure(output: &str, message: String) -> (result: String)
    ensures
        result@ == failure_detail(output@, message@),
{
    match find_useful(output) {
        Some(line) => {
            let told = take_excerpt(line.as_str());
            if same_text(told.as_str(), message.as_str()) {
                message
            } else {
                join3(message.as_str(), ". ", told.as_str())
            }
        },
        None => message,
    }
}

impl BlackholesApp {
    /// The requests to stop the sign-in that is given up.
    pub open spec fn gives_up(&self) -> Seq<Effect> {
        match self.authentication {
            Some(authentication) if authentication.live => seq![Effect::StopAuthentication],
            _ => seq![],
        }
    }

    /// `after` is `before` with no sign-in.
    pub open spec fn stops_authentication(before: Self, after: Self) -> bool {
        Self::requests(
            BlackholesApp { authentication: None, ..before },
            after,
            before.gives_up(),
        )
    }

    fn stop_authentication(&mut self)
        ensures
            Self::stops_authentication(*old(self), *final(self)),
    {
        let live: bool = match &self.authentication {
            Some(authentication) => authentication.live,
            None => false,
        };
        self.authentication = None;
        if live {
            self.emit(Effect::StopAuthentication);
        } else {
            assert(self.effects@ =~= old(self).effects@ + Seq::<Effect>::empty());
        }
    }

    /// `after` is `before` with a sign-in asked for and an earlier one given up.
    pub open spec fn asks_for_sign_in(before: Self, after: Self, provider: AgentProvider) -> bool {
        exists|stopped: BlackholesApp| #[trigger]
            Self::stops_authentication(before, stopped) && Self::requests(
                stopped,
                after,
                seq![Effect::StartAuthentication { provider }],
            )
    }

    /// The user wants to sign in with a provider. An earlier sign-in is given up.
    pub fn authenticate_agent_provider(&mut self, provider: AgentProvider)
        ensures
            Self::asks_for_sign_in(*old(self), *final(self), provider),
    {
        let ghost before = *self;
        self.stop_authentication();
        assert(Self::stops_authentication(before, *self));
        self.emit(Effect::StartAuthentication { provider });
    }

    /// `after` is `before` with a sign-in under way.
    pub open spec fn starts_authentication(before: Self, after: Self, provider: AgentProvider) -> bool {
        &&& after.authentication matches Some(authentication) && {
            &&& authentication.provider == provider
            &&& authentication.status == AgentAuthStatus::Connecting
            &&& authentication.detail@ == before.text(
                "Preparing secure sign-in…"@,
                "Preparando el inicio de sesión seguro…"@,
            )
            &&& authentication.output@ == Seq::<char>::empty()
            &&& authentication.opened_url is None
            &&& authentication.live
        }
        &&& after.effects@ == before.effects@ + seq![Effect::Redraw]
        &&& after == (BlackholesApp {
            authentication: after.authentication,
            effects: after.effects,
            ..before
        })
    }

    /// A sign-in was started, or could not be. Its identifier is returned.
    pub fn finish_authentication_start(
        &mut self,
        provider: AgentProvider,
        result: Result<(), String>,
    ) -> (id: Option<Id>)
        ensures
            match result {
                Ok(_) => {
                    &&& Self::starts_authentication(*old(self), *final(self), provider)
                    &&& final(self).authentication matches Some(authentication) && id == Some(
                        authentication.id,
                    )
                },
                Err(error) => id is None && Self::reports(
                    *old(self),
                    *final(self),
                    old(self).text(
                        "Could not start authentication"@,
                        "No se pudo iniciar la autenticación"@,
                    ) + ": "@ + error@,
                    true,
                ),
            },
    {
        match result {
            Err(error) => {
                let message = join3(
                    self.tr(
                        "Could not start authentication",
                        "No se pudo iniciar la autenticación",
                    ),
                    ": ",
                    error.as_str(),
                );
                self.set_status(message, true);
                None
            },
            Ok(_) => {
                let id: Id = fresh_id();
                let detail = self.tr(
                    "Preparing secure sign-in…",
                    "Preparando el inicio de sesión seguro…",
                ).to_string();
                let output = "".to_string();
                proof {
                    reveal_strlit("");
                    assert(output@ =~= Seq::<char>::empty());
                }
                self.authentication =
                Some(
                    AgentAuthentication {
                        id,
                        provider,
                        status: AgentAuthStatus::Connecting,
                        detail,
                        output,
                        opened_url: None,
                        live: true,
                    },
                );
                self.notify();
                Some(id)
            },
        }
    }

    /// The sign-in is the one that is under way.
    pub open spec fn is_signing_in(&self, id: Id, provider: AgentProvider) -> bool {
        self.authentication matches Some(authentication) && authentication.id == id
            && authentication.provider == provider
    }

    /// Whether the sign-in is the one that is under way.
    pub fn is_authenticating(&self, id: Id, provider: AgentProvider) -> (result: bool)
        ensures
            result == self.is_signing_in(id, provider),
    {
        match &self.authentication {
            Some(authentication) => authentication.id == id && authentication.provider == provider,
            None => false,
        }
    }
}

/// What the user is told when the provider wants a code.
pub open spec fn code_wanted(language: Language) -> Seq<char> {
    in_language(
        language,
        "The provider requested a code. Paste it here to continue."@,
        "El proveedor solicita un código. Pégalo aquí para continuar."@,
    )
}

/// What the user is told when a page was opened.
pub open spec fn page_opened(language: Language) -> Seq<char> {
    in_language(
        language,
        "Continue signing in through your browser, then return to Blackholes. If it did not open, use the button below."@,
        "Continúa el inicio de sesión en el navegador y vuelve a Blackholes. Si no se abrió, usa el botón de abajo."@,
    )
}

/// What the user is told when the account is connected.
pub open spec fn account_connected(language: Language, display_name: Seq<char>) -> Seq<char> {
    display_name + in_language(
        language,
        " is now connected to Blackholes."@,
        " quedó conectado a Blackholes."@,
    )
}

/// What the user is told when the account is connected but not stored.
pub open spec fn account_not_saved(language: Language, error: Seq<char>) -> Seq<char> {
    in_language(
        language,
        "The account was authenticated, but the selection could not be saved"@,
        "La cuenta se autenticó, pero no se pudo guardar la selección"@,
    ) + ": "@ + error
}

impl AgentAuthentication {
    /// `after` is `before` with more output.
    pub open spec fn takes_output(before: Self, after: Self, text: Seq<char>, language: Language) -> bool {
        &&& after.output@ == kept_output(before.output@ + text)
        &&& after == (AgentAuthentication {
            output: after.output,
            status: if asks_for_code(text) {
                AgentAuthStatus::NeedsInput
            } else {
                before.status
            },
            detail: after.detail,
            ..before
        })
        &&& if asks_for_code(text) {
            after.detail@ == code_wanted(language)
        } else {
            after.detail == before.detail
        }
    }

    /// `after` is `before` with a page opened, unless it is the one that was.
    pub open spec fn takes_page(before: Self, after: Self, url: String, language: Language) -> bool {
        if before.opened_url matches Some(opened) && opened@ == url@ {
            after == before
        } else {
            &&& after.detail@ == page_opened(language)
            &&& after == (AgentAuthentication {
                opened_url: Some(url),
                status: AgentAuthStatus::Connecting,
                detail: after.detail,
                ..before
            })
        }
    }

    /// `after` is `before` with the account connected. `saved` is what came of
    /// storing that the isolated profile is the one to use.
    pub open spec fn takes_account(
        before: Self,
        after: Self,
        display_name: Seq<char>,
        saved: Result<(), String>,
        language: Language,
    ) -> bool {
        &&& after == (AgentAuthentication {
            live: false,
            status: if saved is Ok {
                AgentAuthStatus::Connected
            } else {
                AgentAuthStatus::Error
            },
            detail: after.detail,
            ..before
        })
        &&& after.detail@ == match saved {
            Ok(_) => account_connected(language, display_name),
            Err(error) => account_not_saved(language, error@),
        }
    }

    /// `after` is `before` failed.
    pub open spec fn takes_failure(before: Self, after: Self, message: Seq<char>) -> bool {
        &&& after.detail@ == failure_detail(before.output@, message)
        &&& after == (AgentAuthentication {
            live: false,
            status: AgentAuthStatus::Error,
            detail: after.detail,
            ..before
        })
    }

    /// `after` is `before` with an event taken in.
    pub open spec fn takes(
        before: Self,
        after: Self,
        event: AgentAuthEvent,
        display_name: Seq<char>,
        saved: Result<(), String>,
        language: Language,
    ) -> bool {
        match event {
            AgentAuthEvent::Output { text } => Self::takes_output(before, after, text@, language),
            AgentAuthEvent::OpenUrl { url } => Self::takes_page(before, after, url, language),
            AgentAuthEvent::Completed => Self::takes_account(
                before,
                after,
                display_name,
                saved,
                language,
            ),
            AgentAuthEvent::Error { message } => Self::takes_failure(before, after, message@),
        }
    }

    /// Takes an event in.
    pub fn take(
        &mut self,
        event: AgentAuthEvent,
        display_name: &str,
        saved: &Result<(), String>,
        language: Language,
    )
        ensures
            Self::takes(*old(self), *final(self), event, display_name@, *saved, language),
    {
        let ghost before = *self;
        match event {
            AgentAuthEvent::Output { text } => {
                let output = join2(self.output.as_str(), text.as_str());
                self.output = keep_output(output);
                if requests_code(text.as_str()) {
                    self.status = AgentAuthStatus::NeedsInput;
                    self.detail =
                    tr(
                        language,
                        "The provider requested a code. Paste it here to continue.",
                        "El proveedor solicita un código. Pégalo aquí para continuar.",
                    ).to_string();
                }
            },
            AgentAuthEvent::OpenUrl { url } => {
                let known: bool = match &self.opened_url {
                    Some(opened) => same_text(opened.as_str(), url.as_str()),
                    None => false,
                };
                if !known {
                    self.opened_url = Some(url);
                    self.status = AgentAuthStatus::Connecting;
                    self.detail =
                    tr(
                        language,
                        "Continue signing in through your browser, then return to Blackholes. If it did not open, use the button below.",
                        "Continúa el inicio de sesión en el navegador y vuelve a Blackholes. Si no se abrió, usa el botón de abajo.",
                    ).to_string();
                }
            },
            AgentAuthEvent::Completed => {
                self.live = false;
                match saved {
                    Ok(_) => {
                        self.status = AgentAuthStatus::Connected;
                        self.detail =
                        join2(
                            display_name,
                            tr(
                                language,
                                " is now connected to Blackholes.",
                                " quedó conectado a Blackholes.",
                            ),
                        );
                    },
                    Err(error) => {
                        self.status = AgentAuthStatus::Error;
                        self.detail =
                        join3(
                            tr(
                                language,
                                "The account was authenticated, but the selection could not be saved",
                                "La cuenta se autenticó, pero no se pudo guardar la selección",
                            ),
                            ": ",
                            error.as_str(),
                        );
                    },
                }
            },
            AgentAuthEvent::Error { message } => {
                self.status = AgentAuthStatus::Error;
                self.live = false;
                self.detail = describe_failure(self.output.as_str(), message);
            },
        }
    }
}

impl BlackholesApp {
    /// `after` is `before` with the event of a sign-in taken in.
    pub open spec fn signs_in(
        before: Self,
        after: Self,
        event: AgentAuthEvent,
        display_name: Seq<char>,
        saved: Result<(), String>,
    ) -> bool {
        &&& before.authentication matches Some(earlier) && after.authentication matches Some(later)
            && AgentAuthentication::takes(
            earlier,
            later,
            event,
            display_name,
            saved,
            before.session.language,
        )
        &&& after == (BlackholesApp { authentication: after.authentication, ..before })
    }

    /// `after` is `before` with integrations and limits read again for a new account.
    pub open spec fn welcomes_account(before: Self, after: Self) -> bool {
        exists|synchronized: BlackholesApp| #[trigger]
            Self::synchronizes(before, synchronized) && Self::reads_plan(
                synchronized.plan_forgotten(),
                after,
            )
    }

    /// `after` is `before` with what follows the event of a sign-in done.
    pub open spec fn follows_sign_in(before: Self, after: Self, completed: bool) -> bool {
        if completed {
            Self::welcomes_account(before, after)
        } else {
            after == before
        }
    }

    /// `after` is `before` with the event of a sign-in acted upon.
    pub open spec fn handles_sign_in(
        before: Self,
        after: Self,
        event: AgentAuthEvent,
        display_name: Seq<char>,
        saved: Result<(), String>,
    ) -> bool {
        exists|taken: BlackholesApp, followed: BlackholesApp|
            {
                &&& #[trigger] Self::signs_in(before, taken, event, display_name, saved)
                &&& #[trigger] Self::follows_sign_in(taken, followed, event is Completed)
                &&& Self::requests(followed, after, seq![Effect::Redraw])
            }
    }

    /// `after` is `before` with what a sign-in reports acted upon; nothing unless it is
    /// the one under way. `saved` is what came of storing the profile of a completed
    /// sign-in.
    pub open spec fn hears_sign_in(
        before: Self,
        after: Self,
        id: Id,
        provider: AgentProvider,
        event: AgentAuthEvent,
        display_name: Seq<char>,
        saved: Result<(), String>,
    ) -> bool {
        if before.is_signing_in(id, provider) {
            Self::handles_sign_in(before, after, event, display_name, saved)
        } else {
            after == before
        }
    }

    /// A sign-in reports an event.
    pub fn handle_agent_auth_event(
        &mut self,
        id: Id,
        provider: AgentProvider,
        event: AgentAuthEvent,
        display_name: &str,
        saved: Result<(), String>,
    )
        ensures
            Self::hears_sign_in(
                *old(self),
                *final(self),
                id,
                provider,
                event,
                display_name@,
                saved,
            ),
    {
        let ghost before = *self;
        let ghost reported = event;
        if !self.is_authenticating(id, provider) {
            return ;
        }
        let completed: bool = match &event {
            AgentAuthEvent::Completed => true,
            _ => false,
        };
        let language = self.session.language;
        if let Some(authentication) = &mut self.authentication {
            authentication.take(event, display_name, &saved, language);
        }
        let ghost taken = *self;
        assert(Self::signs_in(before, taken, reported, display_name@, saved));
        if completed {
            self.refresh_external_integrations();
            assert(Self::synchronizes(taken, *self));
            self.invalidate_plan_usage();
            assert(Self::welcomes_account(taken, *self));
        }
        assert(Self::follows_sign_in(taken, *self, reported is Completed));
        self.notify();
    }

    /// `after` is `before` with what the user entered handed to the sign-in; nothing
    /// where it is blank.
    pub open spec fn sends_value(before: Self, after: Self, value: Seq<char>) -> bool {
        if before.authentication is None || is_blank(value) {
            after == before
        } else {
            exists|text: String|
                text@ == trimmed(value) && #[trigger] Self::requests(
                    before,
                    after,
                    seq![Effect::SendAuthenticationInput { text }],
                )
        }
    }

    /// Hands what the user entered to the sign-in.
    pub fn submit_agent_auth_value(&mut self, value: &str)
        ensures
            Self::sends_value(*old(self), *final(self), value@),
    {
        let ghost before = *self;
        if crate::text::blank(value) || self.authentication.is_none() {
            return ;
        }
        let text = trim(value);
        let ghost sent = text;
        self.emit(Effect::SendAuthenticationInput { text });
        assert(Self::requests(
            before,
            *self,
            seq![Effect::SendAuthenticationInput { text: sent }],
        ));
    }

    /// What the user entered was handed over, or the sign-in is gone.
    pub fn finish_agent_auth_input(&mut self, sent: bool)
        ensures
            match old(self).authentication {
                None => Self::requests(*old(self), *final(self), seq![Effect::Redraw]),
                Some(earlier) => {
                    &&& final(self).authentication matches Some(later) && later == (
                    AgentAuthentication {
                        status: if sent {
                            AgentAuthStatus::Connecting
                        } else {
                            AgentAuthStatus::Error
                        },
                        detail: later.detail,
                        ..earlier
                    }) && later.detail@ == if sent {
                        old(self).text("Verifying the code…"@, "Verificando el código…"@)
                    } else {
                        old(self).text(
                            "The authentication process is no longer available."@,
                            "El proceso de autenticación ya no está disponible."@,
                        )
                    }
                    &&& Self::requests(
                        BlackholesApp { authentication: final(self).authentication, ..*old(self) },
                        *final(self),
                        seq![Effect::Redraw],
                    )
                },
            },
    {
        let language = self.session.language;
        if let Some(authentication) = &mut self.authentication {
            if sent {
                authentication.status = AgentAuthStatus::Connecting;
                authentication.detail =
                tr(language, "Verifying the code…", "Verificando el código…").to_string();
            } else {
                authentication.status = AgentAuthStatus::Error;
                authentication.detail =
                tr(
                    language,
                    "The authentication process is no longer available.",
                    "El proceso de autenticación ya no está disponible.",
                ).to_string();
            }
        }
        self.notify();
    }

    /// Gives the sign-in up.
    pub fn cancel_agent_authentication(&mut self)
        ensures
            exists|stopped: BlackholesApp| #[trigger]
                Self::stops_authentication(*old(self), stopped) && Self::requests(
                    stopped,
                    *final(self),
                    seq![Effect::Redraw],
                ),
    {
        let ghost before = *self;
        self.stop_authentication();
        assert(Self::stops_authentication(before, *self));
        self.notify();
    }
}

// ---------------------------------------------------------------------------
// Integrations and updates
// ---------------------------------------------------------------------------
impl BlackholesApp {
    /// `after` is `before` with the integrations being set up, unless they are.
    pub open spec fn synchronizes(before: Self, after: Self) -> bool {
        if before.integrations_running {
            after == before
        } else {
            Self::requests(
                BlackholesApp { integrations_running: true, ..before },
                after,
                before.publishes_surface() + seq![Effect::SynchronizeIntegrations],
            )
        }
    }

    /// Sets the integrations of the agents up.
    pub fn refresh_external_integrations(&mut self)
        ensures
            Self::synchronizes(*old(self), *final(self)),
    {
        if self.integrations_running {
            return ;
        }
        self.integrations_running = true;
        self.hydrate_active_workspace_surface();
        self.emit(Effect::SynchronizeIntegrations);
        assert(self.effects@ =~= old(self).effects@ + (old(self).publishes_surface() + seq![
            Effect::SynchronizeIntegrations,
        ]));
    }

    /// The integrations were set up; `running` is whether that still goes on.
    pub fn finish_external_integrations(&mut self, running: bool)
        ensures
            Self::requests(
                BlackholesApp { integrations_running: running, ..*old(self) },
                *final(self),
                old(self).publishes_surface() + seq![Effect::Redraw],
            ),
    {
        self.integrations_running = running;
        self.hydrate_active_workspace_surface();
        self.notify();
        assert(self.effects@ =~= old(self).effects@ + (old(self).publishes_surface() + seq![
            Effect::Redraw,
        ]));
    }

    /// An update now would cost the user something.
    pub open spec fn blocks_update(&self) -> bool {
        ||| self.busy is Some
        ||| self.modals.task_request is Some
        ||| self.modals.task_removal is Some
        ||| self.modals.agent_removal is Some
        ||| self.modals.project_request is Some
        ||| self.modals.appearance_request is Some
        ||| self.running@.len() > 0
        ||| self.authentication is Some
        ||| self.has_unsaved_file()
        ||| self.task_details_dirty@.len() > 0
    }

    /// The request to tell the updater whether it may restart the application.
    pub open spec fn guards_update(&self) -> Effect {
        Effect::GuardUpdates {
            blocked: self.blocks_update(),
            spanish: self.session.language == Language::Spanish,
        }
    }

    /// Tells the updater whether it may restart the application.
    pub fn sync_update_guard(&mut self)
        ensures
            Self::requests(*old(self), *final(self), seq![old(self).guards_update()]),
    {
        let unsaved: bool = match &self.active_file {
            Some(file) => file.dirty || file.save_state != NoteSaveState::Saved,
            None => false,
        };
        let blocked: bool = self.busy.is_some() || self.modals.task_request.is_some()
            || self.modals.task_removal.is_some() || self.modals.agent_removal.is_some()
            || self.modals.project_request.is_some() || self.modals.appearance_request.is_some()
            || self.running.len() > 0 || self.authentication.is_some() || unsaved
            || self.task_details_dirty.len() > 0;
        let spanish: bool = self.session.language == Language::Spanish;
        self.emit(Effect::GuardUpdates { blocked, spanish });
    }

    /// Why there are no updates.
    pub open spec fn update_refusal(&self) -> Seq<char> {
        if self.update_state.error@.len() == 0 {
            self.text(
                "Updates are available in the packaged release app. See GitHub Releases for signed downloads."@,
                "Las actualizaciones funcionan en la app empaquetada. Consulta GitHub Releases para las descargas firmadas."@,
            )
        } else {
            self.text("Updater unavailable"@, "Actualizador no disponible"@) + ": "@
                + self.update_state.error@
        }
    }

    /// `after` is `before` with an update looked for, or the user told why not.
    pub open spec fn looks_for_update(before: Self, after: Self) -> bool {
        if before.update_state.enabled {
            Self::requests(before, after, seq![Effect::SaveSessionBeforeUpdate])
        } else {
            Self::reports(before, after, before.update_refusal(), true)
        }
    }

    /// The user wants to look for an update. The session is written first.
    pub fn check_app_update(&mut self)
        ensures
            exists|guarded: BlackholesApp| #[trigger]
                Self::requests(*old(self), guarded, seq![old(self).guards_update()])
                    && Self::looks_for_update(guarded, *final(self)),
    {
        let ghost before = *self;
        self.sync_update_guard();
        let ghost guarded = *self;
        assert(Self::requests(before, guarded, seq![before.guards_update()]));
        if !self.update_state.enabled {
            let message = if self.update_state.error.as_str().unicode_len() == 0 {
                self.tr(
                    "Updates are available in the packaged release app. See GitHub Releases for signed downloads.",
                    "Las actualizaciones funcionan en la app empaquetada. Consulta GitHub Releases para las descargas firmadas.",
                ).to_string()
            } else {
                join3(
                    self.tr("Updater unavailable", "Actualizador no disponible"),
                    ": ",
                    self.update_state.error.as_str(),
                )
            };
            self.set_status(message, true);
        } else {
            self.emit(Effect::SaveSessionBeforeUpdate);
        }
        assert(Self::looks_for_update(guarded, *self));
    }

    /// The session was written for an update, or could not be.
    pub fn finish_update_session(&mut self, saved: Result<(), String>)
        ensures
            match saved {
                Ok(_) => Self::requests(*old(self), *final(self), seq![Effect::CheckForUpdate]),
                Err(error) => Self::reports(
                    *old(self),
                    *final(self),
                    "Could not save the session before updating: "@ + error@,
                    true,
                ),
            },
    {
        match saved {
            Ok(_) => self.emit(Effect::CheckForUpdate),
            Err(error) => {
                let message = join2("Could not save the session before updating: ", error.as_str());
                self.set_status(message, true);
            },
        }
    }
}

// ---------------------------------------------------------------------------
// Settings
// ---------------------------------------------------------------------------
impl BlackholesApp {
    /// A folder for new projects was chosen. `saved` is what came of storing it.
    pub fn set_projects_root(&mut self, is_directory: bool, saved: Result<(), String>)
        ensures
            if !is_directory {
                Self::reports(
                    *old(self),
                    *final(self),
                    old(self).text("Choose a directory"@, "Elige una carpeta"@),
                    true,
                )
            } else {
                match saved {
                    Ok(_) => Self::reports(
                        *old(self),
                        *final(self),
                        old(self).text(
                            "Projects folder updated"@,
                            "Carpeta de proyectos actualizada"@,
                        ),
                        false,
                    ),
                    Err(error) => Self::reports(
                        *old(self),
                        *final(self),
                        "Could not save the projects folder: "@ + error@,
                        true,
                    ),
                }
            },
    {
        if !is_directory {
            let message = self.tr("Choose a directory", "Elige una carpeta").to_string();
            self.set_status(message, true);
            return ;
        }
        match saved {
            Ok(_) => {
                let message = self.tr(
                    "Projects folder updated",
                    "Carpeta de proyectos actualizada",
                ).to_string();
                self.set_status(message, false);
            },
            Err(error) => {
                let message = join2("Could not save the projects folder: ", error.as_str());
                self.set_status(message, true);
            },
        }
    }

    /// The folder for new projects could not be shown.
    pub fn reveal_failed(&mut self, path: &str, error: &str)
        ensures
            Self::reports(
                *old(self),
                *final(self),
                "Could not reveal "@ + path@ + ": "@ + error@,
                true,
            ),
    {
        let message = join4("Could not reveal ", path, ": ", error);
        self.set_status(message, true);
    }

    /// The installer of the Git tools could not be opened.
    pub fn git_tools_failed(&mut self, error: &str)
        ensures
            Self::reports(
                *old(self),
                *final(self),
                "Could not open Apple's tools installer: "@ + error@,
                true,
            ),
    {
        let message = join2("Could not open Apple's tools installer: ", error);
        self.set_status(message, true);
    }

    /// `after` is `before` with a failure told, if there was one.
    pub open spec fn tells_failure(before: Self, after: Self, what: Seq<char>, outcome: Result<(), String>) -> bool {
        match outcome {
            Ok(_) => after == before,
            Err(error) => Self::reports(before, after, what + error@, true),
        }
    }

    fn tell_failure(&mut self, what: &str, outcome: Result<(), String>)
        ensures
            Self::tells_failure(*old(self), *final(self), what@, outcome),
    {
        if let Err(error) = outcome {
            let message = join2(what, error.as_str());
            self.set_status(message, true);
        }
    }

    /// Whether the agents of a project run without asking was chosen. `saved` is
    /// what came of storing it.
    pub fn set_project_terminal_skip_permissions(&mut self, workspace_id: Id, saved: Result<(), String>)
        ensures
            if workspace_at(old(self).workspaces@, workspace_id) is None {
                *final(self) == *old(self)
            } else {
                exists|told: BlackholesApp| #[trigger]
                    Self::tells_failure(
                        *old(self),
                        told,
                        "Could not save terminal permissions: "@,
                        saved,
                    ) && Self::requests(
                        told,
                        *final(self),
                        seq![
                            Effect::PublishSurface {
                                target: SurfaceTarget::ProjectSettings { workspace_id },
                            },
                            Effect::Redraw,
                        ],
                    )
            },
    {
        let ghost before = *self;
        let ghost kept = saved;
        if find_workspace(&self.workspaces, workspace_id).is_none() {
            return ;
        }
        self.tell_failure("Could not save terminal permissions: ", saved);
        let ghost told = *self;
        assert(Self::tells_failure(
            before,
            told,
            "Could not save terminal permissions: "@,
            kept,
        ));
        let target = SurfaceTarget::ProjectSettings { workspace_id };
        self.emit(Effect::PublishSurface { target });
        self.notify();
        assert(self.effects@ =~= told.effects@ + seq![
            Effect::PublishSurface { target },
            Effect::Redraw,
        ]);
    }

    /// The instructions of a project were written, or could not be.
    pub fn update_project_instructions(&mut self, workspace_id: Id, written: Result<(), String>)
        ensures
            if workspace_at(old(self).workspaces@, workspace_id) is None {
                *final(self) == *old(self)
            } else {
                exists|told: BlackholesApp| #[trigger]
                    Self::tells_failure(
                        *old(self),
                        told,
                        "Could not save the project "@ + old(self).agent_labels.instructions_file@ + ": "@,
                        written,
                    ) && Self::requests(told, *final(self), seq![Effect::Redraw])
            },
    {
        let ghost before = *self;
        let ghost kept = written;
        if find_workspace(&self.workspaces, workspace_id).is_none() {
            return ;
        }
        let message = join3(
            "Could not save the project ",
            self.agent_labels.instructions_file.as_str(),
            ": ",
        );
        self.tell_failure(message.as_str(), written);
        assert(Self::tells_failure(before, *self, message@, kept));
        self.notify();
    }

    /// `after` is `before` with the tasks of a project to be given its shared
    /// instructions.
    pub open spec fn shares_instructions(before: Self, after: Self, workspace_id: Id) -> bool {
        exists|places: Vec<usize>|
            places@ == instructed_tasks(before, workspace_id, before.tasks@.len() as int)
                && after.effects@ == before.effects@ + seq![
                Effect::Redraw,
                #[trigger] Self::repairs(workspace_id, places),
            ] && after == (BlackholesApp { effects: after.effects, ..before })
    }

    /// The request to give tasks the shared instructions of their project.
    pub open spec fn repairs(workspace_id: Id, places: Vec<usize>) -> Effect {
        Effect::RepairTasks { workspace_id, places }
    }

    /// The instructions that the tasks of a project share were written, or could
    /// not be.
    pub fn update_project_task_instructions(&mut self, workspace_id: Id, written: Result<(), String>)
        ensures
            if workspace_at(old(self).workspaces@, workspace_id) is None {
                *final(self) == *old(self)
            } else {
                match written {
                    Err(error) => Self::reports(
                        *old(self),
                        *final(self),
                        "Could not save the shared task "@ + old(self).agent_labels.instructions_file@ + ": "@ + error@,
                        true,
                    ),
                    Ok(_) => Self::shares_instructions(*old(self), *final(self), workspace_id),
                }
            },
    {
        let ghost before = *self;
        if find_workspace(&self.workspaces, workspace_id).is_none() {
            return ;
        }
        if let Err(error) = written {
            let message = join4(
                "Could not save the shared task ",
                self.agent_labels.instructions_file.as_str(),
                ": ",
                error.as_str(),
            );
            self.set_status(message, true);
            return ;
        }
        let places = self.find_instructed_tasks(workspace_id);
        let ghost wanted = places;
        self.notify();
        self.emit(Effect::RepairTasks { workspace_id, places });
        assert(self.effects@ =~= before.effects@ + seq![
            Effect::Redraw,
            Self::repairs(workspace_id, wanted),
        ]);
        assert(Self::shares_instructions(before, *self, workspace_id));
    }

    /// The tasks of a project were given its shared instructions, as far as that
    /// went.
    pub fn finish_task_instructions(&mut self, result: Result<(), String>)
        ensures
            exists|told: BlackholesApp| #[trigger]
                Self::tells_failure(
                    *old(self),
                    told,
                    "Could not update every task "@ + old(self).agent_labels.instructions_file@
                        + ": "@,
                    result,
                ) && Self::requests(told, *final(self), seq![Effect::Redraw]),
    {
        let ghost before = *self;
        let ghost kept = result;
        let message = join3(
            "Could not update every task ",
            self.agent_labels.instructions_file.as_str(),
            ": ",
        );
        self.tell_failure(message.as_str(), result);
        assert(Self::tells_failure(before, *self, message@, kept));
        self.notify();
    }
}

/// Two sign-ins never compete: the process of one that is under way is stopped
/// before the next is started.
pub proof fn law_one_sign_in(before: BlackholesApp, after: BlackholesApp, provider: AgentProvider)
    requires
        BlackholesApp::asks_for_sign_in(before, after, provider),
        before.authentication matches Some(authentication) && authentication.live,
    ensures
        after.authentication is None,
        after.effects@ == before.effects@ + seq![
            Effect::StopAuthentication,
            Effect::StartAuthentication { provider },
        ],
{
}

/// The application is not restarted for an update while anything would be lost by it:
/// an operation, an open dialog, a process in a terminal, a sign-in, an edit or notes
/// that are not saved. Nothing else keeps an update back.
pub proof fn law_update_guarded(app: BlackholesApp)
    ensures
        app.guards_update() matches Effect::GuardUpdates { blocked, spanish } && {
            &&& !blocked <==> {
                &&& app.busy is None
                &&& app.modals.task_request is None && app.modals.task_removal is None
                &&& app.modals.agent_removal is None && app.modals.project_request is None
                &&& app.modals.appearance_request is None
                &&& forall|id: Id| !(#[trigger] app.running@.contains(id))
                &&& app.authentication is None
                &&& app.active_file matches Some(file) ==> !file.dirty && file.save_state
                    == NoteSaveState::Saved
                &&& forall|id: Id| !(#[trigger] app.task_details_dirty@.contains(id))
            }
            &&& spanish <==> app.session.language == Language::Spanish
        },
{
    if app.running@.len() > 0 {
        assert(app.running@.contains(app.running@[0]));
    }
    if app.task_details_dirty@.len() > 0 {
        assert(app.task_details_dirty@.contains(app.task_details_dirty@[0]));
    }
}

/// A sign-in that completes is connected once its profile is stored, one that fails is
/// not, and neither goes on; one that asks for a code waits for it. What it printed is
/// kept from its end.
pub proof fn law_sign_in_event(
    before: AgentAuthentication,
    after: AgentAuthentication,
    event: AgentAuthEvent,
    display_name: Seq<char>,
    saved: Result<(), String>,
    language: Language,
)
    requires
        AgentAuthentication::takes(before, after, event, display_name, saved, language),
    ensures
        after.id == before.id && after.provider == before.provider,
        match event {
            AgentAuthEvent::Completed => !after.live && (after.status == AgentAuthStatus::Connected
                <==> saved is Ok) && (after.status == AgentAuthStatus::Error <==> saved is Err)
                && after.output == before.output,
            AgentAuthEvent::Error { message } => !after.live && after.status
                == AgentAuthStatus::Error && message@.is_prefix_of(after.detail@),
            AgentAuthEvent::Output { text } => {
                &&& after.live == before.live
                &&& after.output@.len() <= (before.output@ + text@).len()
                &&& after.output@ == (before.output@ + text@).skip(
                    (before.output@ + text@).len() - after.output@.len(),
                )
                &&& encode_utf8(before.output@ + text@).len() <= 65_536 ==> after.output@
                    == before.output@ + text@
                &&& after.status == if asks_for_code(text@) {
                    AgentAuthStatus::NeedsInput
                } else {
                    before.status
                }
            },
            AgentAuthEvent::OpenUrl { url } => {
                &&& after.opened_url matches Some(opened) && opened@ == url@
                &&& after.live == before.live
                &&& !(before.opened_url matches Some(opened) && opened@ == url@) ==> after.status
                    == AgentAuthStatus::Connecting
            },
        },
{
    match event {
        AgentAuthEvent::Output { text } => {
            law_output_limit(before.output@ + text@);
        },
        AgentAuthEvent::Error { message } => {
            match last_useful(lines_of(before.output@)) {
                Some(line) => {
                    let told = message@ + ". "@ + excerpt(line);
                    assert(told.subrange(0, message@.len() as int) =~= message@);
                },
                None => {},
            }
            assert(message@.subrange(0, message@.len() as int) =~= message@);
        },
        _ => {},
    }
}

/// The lines of a text are what lies between its line ends: none of them holds one, and
/// put together again they are the text.
pub proof fn law_lines(text: Seq<char>)
    ensures
        joined(lines_of(text)) == text,
        forall|i: int, k: int|
            0 <= i < lines_of(text).len() && 0 <= k < lines_of(text)[i].len()
                ==> #[trigger] lines_of(text)[i][k] != '\n',
    decreases text.len(),
{
    lemma_lines_nonempty(text);
    let lines = lines_of(text);
    if text.len() == 0 {
        reveal_with_fuel(joined, 2);
        assert(joined(lines) =~= text);
    } else {
        let fewer = text.drop_last();
        law_lines(fewer);
        lemma_lines_nonempty(fewer);
        let earlier = lines_of(fewer);
        if text.last() == '\n' {
            assert(lines.drop_last() =~= earlier);
            assert(lines.last() =~= Seq::<char>::empty());
            assert(joined(lines) =~= joined(earlier).push('\n') + lines.last());
            assert(joined(lines) =~= text);
        } else {
            assert(lines.drop_last() =~= earlier.drop_last());
            assert(lines.last() == earlier.last().push(text.last()));
            assert(joined(lines) =~= joined(earlier).push(text.last()));
            assert(joined(lines) =~= text);
        }
        assert forall|i: int, k: int|
            0 <= i < lines.len() && 0 <= k < lines[i].len() implies #[trigger] lines[i][k] != '\n' by {
            if i < earlier.len() && k < earlier[i].len() {
                assert(lines[i][k] == earlier[i][k]);
            }
        }
    }
}

/// Lines put together, with a line end between them.
pub open spec fn joined(lines: Seq<Seq<char>>) -> Seq<char>
    decreases lines.len(),
{
    if lines.len() == 0 {
        Seq::empty()
    } else if lines.len() == 1 {
        lines[0]
    } else {
        joined(lines.drop_last()).push('\n') + lines.last()
    }
}

/// What is told of a failure is its last line that says something; links are passed
/// over.
pub proof fn law_last_useful(lines: Seq<Seq<char>>)
    ensures
        match last_useful(lines) {
            Some(line) => exists|i: int|
                0 <= i < lines.len() && line == trimmed(#[trigger] lines[i]) && line.len() > 0
                    && !occurs_in(line, "https://"@) && !occurs_in(line, "http://"@) && forall|j: int|
                    i < j < lines.len() ==> !is_useful(#[trigger] lines[j]),
            None => forall|i: int| 0 <= i < lines.len() ==> !is_useful(#[trigger] lines[i]),
        },
    decreases lines.len(),
{
    if lines.len() > 0 {
        let last = lines.len() - 1;
        assert(lines[last] == lines.last());
        if !is_useful(lines.last()) {
            let fewer = lines.drop_last();
            law_last_useful(fewer);
            match last_useful(fewer) {
                Some(line) => {
                    let i = choose|i: int|
                        0 <= i < fewer.len() && line == trimmed(#[trigger] fewer[i]) && line.len()
                            > 0 && !occurs_in(line, "https://"@) && !occurs_in(line, "http://"@)
                            && forall|j: int|
                            i < j < fewer.len() ==> !is_useful(#[trigger] fewer[j]);
                    assert(lines[i] == fewer[i]);
                    assert forall|j: int| i < j < lines.len() implies !is_useful(
                        #[trigger] lines[j],
                    ) by {
                        if j < fewer.len() {
                            assert(fewer[j] == lines[j]);
                        }
                    }
                },
                None => {
                    assert forall|i: int| 0 <= i < lines.len() implies !is_useful(
                        #[trigger] lines[i],
                    ) by {
                        if i < fewer.len() {
                            assert(fewer[i] == lines[i]);
                        }
                    }
                },
            }
        }
    }
}

/// Only the sign-in that is under way is heard; one that completes has the limits of
/// its account forgotten, and everything that is set up for an account is set up again.
pub proof fn law_sign_in_heard(
    before: BlackholesApp,
    after: BlackholesApp,
    id: Id,
    provider: AgentProvider,
    event: AgentAuthEvent,
    display_name: Seq<char>,
    saved: Result<(), String>,
)
    requires
        BlackholesApp::hears_sign_in(before, after, id, provider, event, display_name, saved),
    ensures
        ({
            let current = before.authentication matches Some(authentication) && authentication.id
                == id && authentication.provider == provider;
            &&& !current ==> after == before
            &&& current ==> after.authentication is Some && AgentAuthentication::takes(
                before.authentication->0,
                after.authentication->0,
                event,
                display_name,
                saved,
                before.session.language,
            )
            &&& current && event is Completed ==> after.plan_usage.active is None
                && after.integrations_running
            &&& current && !(event is Completed) ==> after.plan_usage == before.plan_usage
        }),
{
    if before.is_signing_in(id, provider) {
        let (taken, followed) = choose|taken: BlackholesApp, followed: BlackholesApp|
            {
                &&& #[trigger] BlackholesApp::signs_in(before, taken, event, display_name, saved)
                &&& #[trigger] BlackholesApp::follows_sign_in(taken, followed, event is Completed)
                &&& BlackholesApp::requests(followed, after, seq![Effect::Redraw])
            };
        if event is Completed {
            let synchronized = choose|synchronized: BlackholesApp| #[trigger]
                BlackholesApp::synchronizes(taken, synchronized) && BlackholesApp::reads_plan(
                    synchronized.plan_forgotten(),
                    followed,
                );
            assert(synchronized.integrations_running);
        }
    }
}

/// What the user enters reaches the sign-in without the space around it, where there is
/// one and something was entered.
pub proof fn law_value_sent(before: BlackholesApp, after: BlackholesApp, value: Seq<char>)
    requires
        BlackholesApp::sends_value(before, after, value),
    ensures
        before.authentication is None || is_blank(value) ==> after == before,
        before.authentication is Some && !is_blank(value) ==> after.effects@.len()
            == before.effects@.len() + 1 && (after.effects@.last() matches
        Effect::SendAuthenticationInput { text } && text@ == trimmed(value)),
        after.authentication == before.authentication,
{
}

/// The limits that were read for the selected account are the ones shown, with their
/// time; where they could not be read what was known stays, marked as out of date.
pub proof fn law_plan_shown(
    before: BlackholesApp,
    after: BlackholesApp,
    same_account: bool,
    result: Option<ProviderPlanUsage>,
)
    requires
        BlackholesApp::takes_plan(
            before,
            after,
            before.plan_usage.generation,
            same_account,
            result,
        ),
    ensures
        !after.plan_usage.refreshing,
        after.plan_usage.generation == before.plan_usage.generation,
        result is Some && same_account ==> after.plan_usage.active == result
            && after.plan_usage.updated_at is Some && after.plan_usage.refresh_error
            == before.plan_usage.refresh_error,
        result is None || !same_account ==> after.plan_usage.active == before.plan_usage.active
            && after.plan_usage.updated_at == before.plan_usage.updated_at
            && after.plan_usage.refresh_error,
{
    let now = choose|now: Time| #[trigger]
        BlackholesApp::takes_plan_at(before, after, same_account, result, now);
    assert(BlackholesApp::takes_plan_at(before, after, same_account, result, now));
}

/// The limits are read while the settings are shown, one read at a time.
pub proof fn law_plan_read(before: BlackholesApp, after: BlackholesApp)
    requires
        BlackholesApp::reads_plan(before, after),
    ensures
        before.surface.show_settings && !before.plan_usage.refreshing ==> after.plan_usage.refreshing
            && !after.plan_usage.refresh_error && BlackholesApp::asked(before, after).contains(
            Effect::ReadPlanUsage { generation: before.plan_usage.generation },
        ),
        !before.surface.show_settings || before.plan_usage.refreshing ==> after == before,
        after.plan_usage.active == before.plan_usage.active,
{
    if before.surface.show_settings && !before.plan_usage.refreshing {
        assert(BlackholesApp::asked(before, after)[0] is ReadPlanUsage);
    }
}

/// Each provider has one agent at most: agents that share a provider are the
/// same, and a shell has none.
pub proof fn law_provider_of_agent(one: AgentKind, other: AgentKind)
    ensures
        provider_of(one) is Some && provider_of(one) == provider_of(other) ==> one == other,
        provider_of(AgentKind::Shell) is None,
{
}

/// A sign-in begins with the chosen provider, with nothing heard of it and no
/// page opened for it, and takes the place of any other.
pub proof fn law_sign_in_started(
    before: BlackholesApp,
    after: BlackholesApp,
    provider: AgentProvider,
)
    requires
        BlackholesApp::starts_authentication(before, after, provider),
    ensures
        after.authentication matches Some(flow) && flow.provider == provider && flow.status
            == AgentAuthStatus::Connecting && flow.output@.len() == 0 && flow.opened_url is None
            && flow.live,
        BlackholesApp::asked(before, after) =~= seq![Effect::Redraw],
        after.plan_usage == before.plan_usage,
        after.session == before.session,
{
}

/// The session is saved before an update where updates can be made; elsewhere the
/// user is told so, with the reason where one is known, and nothing is saved.
pub proof fn law_update_looked_for(before: BlackholesApp, after: BlackholesApp)
    requires
        BlackholesApp::looks_for_update(before, after),
    ensures
        before.update_state.enabled ==> BlackholesApp::asked(before, after) =~= seq![
            Effect::SaveSessionBeforeUpdate,
        ] && after.status == before.status,
        !before.update_state.enabled ==> (after.status matches Some(status) && status.error && (
        before.update_state.error@.len() > 0 && before.session.language == Language::English
            ==> status.message@ == "Updater unavailable"@ + ": "@ + before.update_state.error@)),
        !before.update_state.enabled ==> forall|i: int|
            before.effects@.len() <= i < after.effects@.len() ==> !((
            #[trigger] after.effects@[i]) is SaveSessionBeforeUpdate),
{
}

} // verus!
