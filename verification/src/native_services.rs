//! Host-owned credential services. Whatever a provider prints, only the fields a reply needs leave
//! this module, and every failure is told in fixed words.

use vstd::prelude::*;
use vstd::string::*;
use crate::error::{outcome, HarnessError, HarnessErrorView};
use crate::goals_queue::texts;
use crate::json::{at, member, opt_json, opt_text, parse, parsed, print, printed, text_at, Json, JsonView};
use crate::protocol::{RequestBody, RequestBodyView, ServerRequest, ServerRequestView};
use crate::text::{blank, is_blank, same};

verus! {

/// The longest answer a provider may print.
pub const MAX_RESPONSE_BYTES: u64 = 65_536;

/// The argv of each provider. An empty vector disables the service. The executable is an absolute
/// path; arguments are literal and never interpreted by a shell.
#[derive(Debug, Clone)]
pub struct NativeServiceProviders {
    pub attestation_command: Vec<String>,
    pub external_auth_command: Vec<String>,
}

/// A path that starts at the root.
pub open spec fn absolute(path: Seq<char>) -> bool {
    path.len() > 0 && path[0] == '/'
}

pub fn is_absolute(path: &str) -> (r: bool)
    ensures
        r == absolute(path@),
{
    for c in it: path.chars()
        invariant
            it.seq() == path@,
            it.index() == 0,
    {
        return c == '/';
    }
    false
}

/// A command that cannot be run where it stands: it names an executable by a relative path.
pub open spec fn misplaced(command: Seq<String>) -> bool {
    command.len() > 0 && !absolute(command[0]@)
}

fn is_misplaced(command: &Vec<String>) -> (r: bool)
    ensures
        r == misplaced(command@),
{
    command.len() > 0 && !is_absolute(command[0].as_str())
}

impl Default for NativeServiceProviders {
    fn default() -> (r: Self)
        ensures
            r.attestation_command@ == Seq::<String>::empty(),
            r.external_auth_command@ == Seq::<String>::empty(),
    {
        NativeServiceProviders { attestation_command: Vec::new(), external_auth_command: Vec::new() }
    }
}

/// The text a document stands for where a field must not be empty.
pub open spec fn required(value: JsonView, key: Seq<char>) -> Option<Seq<char>> {
    match text_at(value, key) {
        Some(t) if !blank(t) => Some(t),
        _ => None,
    }
}

/// A service's answer seen through its views.
pub open spec fn served(r: Result<Json, &'static str>) -> Result<JsonView, Seq<char>> {
    match r {
        Ok(value) => Ok(value@),
        Err(message) => Err(message@),
    }
}

pub open spec fn missing_field() -> Seq<char> {
    "native service provider response has a missing or empty required field"@
}

pub open spec fn credentials(token: Seq<char>, account: Seq<char>, plan: JsonView) -> JsonView {
    JsonView::Object(
        map!["accessToken"@ => JsonView::Text(token), "chatgptAccountId"@ => JsonView::Text(account), "chatgptPlanType"@ => plan],
    )
}

/// The credentials a provider's document holds; everything else in it is discarded.
pub open spec fn auth_reply(value: JsonView) -> Result<JsonView, Seq<char>> {
    match (required(value, "accessToken"@), required(value, "chatgptAccountId"@)) {
        (Some(token), Some(account)) => {
            let plan = at(value, "chatgptPlanType"@);
            if plan is Null || plan is Text {
                Ok(credentials(token, account, plan))
            } else {
                Err("native service provider returned invalid chatgptPlanType"@)
            }
        },
        _ => Err(missing_field()),
    }
}

fn nonempty<'a>(value: &'a Json, key: &str) -> (r: Result<&'a str, &'static str>)
    ensures
        match required(value@, key@) {
            Some(t) => r matches Ok(found) && found@ == t,
            None => r matches Err(message) && message@ == missing_field(),
        },
{
    match value.text_at(key) {
        Some(t) if !is_blank(t) => Ok(t),
        _ => Err("native service provider response has a missing or empty required field"),
    }
}

/// Takes the credentials out of a provider's document.
pub fn auth_response(value: &Json) -> (r: Result<Json, &'static str>)
    ensures
        served(r) == auth_reply(value@),
{
    let token = match nonempty(value, "accessToken") {
        Ok(t) => t,
        Err(message) => return Err(message),
    };
    let account = match nonempty(value, "chatgptAccountId") {
        Ok(t) => t,
        Err(message) => return Err(message),
    };
    let plan = match value.get("chatgptPlanType") {
        Some(plan) => plan.clone(),
        None => Json::Null,
    };
    if !plan.is_null() && plan.as_str().is_none() {
        return Err("native service provider returned invalid chatgptPlanType");
    }
    let ghost plan_view = plan@;
    let reply = Json::object().with("accessToken", Json::text(token)).with("chatgptAccountId", Json::text(account)).with(
        "chatgptPlanType",
        plan,
    );
    assert(reply@ =~= credentials(token@, account@, plan_view));
    Ok(reply)
}

/// What a service's answer is held to.
#[derive(Debug)]
pub enum ServiceKind {
    Attestation,
    /// A refresh for the account that was signed in, where the request names one.
    Refresh { account: Option<String> },
}

pub enum ServiceKindView {
    Attestation,
    Refresh(Option<Seq<char>>),
}

impl View for ServiceKind {
    type V = ServiceKindView;

    open spec fn view(&self) -> ServiceKindView {
        match self {
            ServiceKind::Attestation => ServiceKindView::Attestation,
            ServiceKind::Refresh { account } => ServiceKindView::Refresh(opt_text(*account)),
        }
    }
}

/// A provider run: the argv and the line on its input.
#[derive(Debug)]
pub struct Invocation {
    pub command: Vec<String>,
    pub payload: String,
}

pub struct InvocationView {
    pub command: Seq<Seq<char>>,
    pub payload: Seq<char>,
}

impl View for Invocation {
    type V = InvocationView;

    open spec fn view(&self) -> InvocationView {
        InvocationView { command: texts(self.command@), payload: self.payload@ }
    }
}

/// The line a provider reads.
pub open spec fn payload_line(method: Seq<char>, params: JsonView) -> Seq<char> {
    printed(
        JsonView::Object(
            map!["version"@ => JsonView::Integer(1), "method"@ => JsonView::Text(method), "params"@ => params],
        ),
    ) + "\n"@
}

/// Whether and how a provider is run.
pub open spec fn invocation(command: Seq<String>, method: Seq<char>, params: JsonView) -> Result<InvocationView, Seq<char>> {
    if command.len() == 0 {
        Err("native service unavailable: configure a trusted host provider in harness configuration"@)
    } else if !absolute(command[0]@) {
        Err("native service provider executable must be an absolute path"@)
    } else {
        Ok(InvocationView { command: texts(command), payload: payload_line(method, params) })
    }
}

fn copy_command(command: &Vec<String>) -> (r: Vec<String>)
    ensures
        texts(r@) == texts(command@),
{
    let mut copy: Vec<String> = Vec::new();
    let mut i: usize = 0;
    while i < command.len()
        invariant
            i <= command@.len(),
            copy@.len() == i,
            forall|k: int| 0 <= k < i ==> (#[trigger] copy@[k])@ == command@[k]@,
        decreases command@.len() - i,
    {
        copy.push(command[i].clone());
        i += 1;
    }
    assert(texts(copy@) =~= texts(command@));
    copy
}

/// How a provider is run for `method`; the errors come before anything runs.
pub fn invoke(command: &Vec<String>, method: &str, params: Json) -> (r: Result<Invocation, &'static str>)
    ensures
        match invocation(command@, method@, params@) {
            Ok(run) => r matches Ok(found) && found@ == run,
            Err(fault) => r matches Err(message) && message@ == fault,
        },
{
    if command.len() == 0 {
        return Err("native service unavailable: configure a trusted host provider in harness configuration");
    }
    if !is_absolute(command[0].as_str()) {
        return Err("native service provider executable must be an absolute path");
    }
    let ghost given = params@;
    let document = Json::object().with("version", Json::Unsigned(1)).with("method", Json::text(method)).with("params", params);
    assert(document@ =~= JsonView::Object(
        map!["version"@ => JsonView::Integer(1), "method"@ => JsonView::Text(method@), "params"@ => given],
    ));
    let mut payload = print(&document);
    payload.append("\n");
    Ok(Invocation { command: copy_command(command), payload })
}

/// The parameters a request hands to its provider.
pub open spec fn service_params(body: RequestBodyView) -> JsonView {
    match body {
        RequestBodyView::AuthRefresh(params) => params,
        RequestBodyView::Unmodelled(Some(params)) => params,
        _ => JsonView::Object(Map::empty()),
    }
}

/// The account hint of a refresh: none, one, or a document that is neither.
pub open spec fn account_hint(params: JsonView) -> Option<Option<Seq<char>>> {
    match member(params, "previousAccountId"@) {
        None => Some(None),
        Some(JsonView::Null) => Some(None),
        Some(JsonView::Text(account)) if !blank(account) => Some(Some(account)),
        _ => None,
    }
}

/// Whether and how a service request is served.
pub open spec fn service_plan(
    attestation: Seq<String>,
    auth: Seq<String>,
    request: ServerRequestView,
) -> Result<(ServiceKindView, InvocationView), Seq<char>> {
    let params = service_params(request.body);
    if request.method == "attestation/generate"@ {
        match invocation(attestation, request.method, params) {
            Ok(run) => Ok((ServiceKindView::Attestation, run)),
            Err(fault) => Err(fault),
        }
    } else if request.method == "account/chatgptAuthTokens/refresh"@ {
        if text_at(params, "reason"@) != Some("unauthorized"@) {
            Err("unsupported native auth refresh reason"@)
        } else {
            match account_hint(params) {
                None => Err("invalid native auth refresh account hint"@),
                Some(account) => match invocation(auth, request.method, params) {
                    Ok(run) => Ok((ServiceKindView::Refresh(account), run)),
                    Err(fault) => Err(fault),
                },
            }
        }
    } else {
        Err("unsupported native service"@)
    }
}

/// What a provider's document is answered with.
pub open spec fn service_answer(kind: ServiceKindView, document: JsonView) -> Result<JsonView, Seq<char>> {
    match kind {
        ServiceKindView::Attestation => match required(document, "token"@) {
            Some(token) => Ok(JsonView::Object(map!["token"@ => JsonView::Text(token)])),
            None => Err(missing_field()),
        },
        ServiceKindView::Refresh(account) => match auth_reply(document) {
            Err(fault) => Err(fault),
            Ok(reply) => if account matches Some(previous) && text_at(reply, "chatgptAccountId"@) != Some(previous) {
                Err("native auth provider attempted to change accounts during refresh"@)
            } else {
                Ok(reply)
            },
        },
    }
}

/// The requests that the host answers itself.
pub open spec fn host_service(method: Seq<char>) -> bool {
    method == "attestation/generate"@ || method == "account/chatgptAuthTokens/refresh"@
}

impl NativeServiceProviders {
    /// Accepts commands whose executable, if there is one, is an absolute path.
    pub fn validate(&self) -> (r: Result<(), HarnessError>)
        ensures
            outcome(r) == (if misplaced(self.attestation_command@) || misplaced(self.external_auth_command@) {
                Err(HarnessErrorView::Protocol("native service provider executable must be an absolute path"@))
            } else {
                Ok(())
            }),
    {
        if is_misplaced(&self.attestation_command) || is_misplaced(&self.external_auth_command) {
            return Err(HarnessError::protocol("native service provider executable must be an absolute path"));
        }
        Ok(())
    }

    pub fn handles(request: &ServerRequest) -> (r: bool)
        ensures
            r == host_service(request.method@),
    {
        same(request.method.as_str(), "attestation/generate") || same(
            request.method.as_str(),
            "account/chatgptAuthTokens/refresh",
        )
    }

    /// Whether and how a service request is served.
    pub fn plan(&self, request: &ServerRequest) -> (r: Result<(ServiceKind, Invocation), &'static str>)
        ensures
            match service_plan(self.attestation_command@, self.external_auth_command@, request@) {
                Ok((kind, run)) => r matches Ok((k, i)) && k@ == kind && i@ == run,
                Err(fault) => r matches Err(message) && message@ == fault,
            },
    {
        let params = match &request.body {
            RequestBody::AuthRefresh(params) => params.clone(),
            RequestBody::Unmodelled(Some(params)) => params.clone(),
            _ => Json::object(),
        };
        assert(params@ == service_params(request@.body));
        let method = request.method.as_str();
        if same(method, "attestation/generate") {
            match invoke(&self.attestation_command, method, params) {
                Ok(run) => Ok((ServiceKind::Attestation, run)),
                Err(fault) => Err(fault),
            }
        } else if same(method, "account/chatgptAuthTokens/refresh") {
            match params.text_at("reason") {
                Some(reason) if same(reason, "unauthorized") => {},
                _ => {
                    return Err("unsupported native auth refresh reason");
                },
            }
            let account = match params.get("previousAccountId") {
                None => None,
                Some(Json::Null) => None,
                Some(Json::Text(account)) if !is_blank(account.as_str()) => Some(account.clone()),
                _ => {
                    return Err("invalid native auth refresh account hint");
                },
            };
            match invoke(&self.external_auth_command, method, params) {
                Ok(run) => Ok((ServiceKind::Refresh { account }, run)),
                Err(fault) => Err(fault),
            }
        } else {
            Err("unsupported native service")
        }
    }
}

/// What a provider's document is answered with.
pub fn answer(kind: &ServiceKind, document: &Json) -> (r: Result<Json, &'static str>)
    ensures
        served(r) == service_answer(kind@, document@),
{
    match kind {
        ServiceKind::Attestation => match nonempty(document, "token") {
            Ok(token) => {
                let reply = Json::object().with("token", Json::text(token));
                assert(reply@ =~= JsonView::Object(map!["token"@ => JsonView::Text(token@)]));
                Ok(reply)
            },
            Err(fault) => Err(fault),
        },
        ServiceKind::Refresh { account } => match auth_response(document) {
            Err(fault) => Err(fault),
            Ok(reply) => {
                if let Some(previous) = account {
                    let kept = match reply.text_at("chatgptAccountId") {
                        Some(found) => same(found, previous.as_str()),
                        None => false,
                    };
                    if !kept {
                        return Err("native auth provider attempted to change accounts during refresh");
                    }
                }
                Ok(reply)
            },
        },
    }
}

/// How a provider's run went.
#[derive(Debug)]
pub enum ProviderRun {
    NotStarted,
    NoInput,
    NoOutput,
    InputFailed,
    OutputFailed,
    TimedOut,
    /// What it printed, up to one byte past the limit, and whether it exited successfully where its
    /// exit is known.
    Printed { bytes: Vec<u8>, success: Option<bool> },
}

/// What a run gave, with `document` for what the printed bytes hold.
pub open spec fn run_result(run: ProviderRun, document: Option<JsonView>) -> Result<JsonView, Seq<char>> {
    match run {
        ProviderRun::NotStarted => Err("native service provider could not be started"@),
        ProviderRun::NoInput => Err("native service provider stdin unavailable"@),
        ProviderRun::NoOutput => Err("native service provider stdout unavailable"@),
        ProviderRun::InputFailed => Err("native service provider input failed"@),
        ProviderRun::OutputFailed => Err("native service provider output failed"@),
        ProviderRun::TimedOut => Err("native service provider timed out"@),
        ProviderRun::Printed { bytes, success } => if bytes@.len() > MAX_RESPONSE_BYTES {
            Err("native service provider response exceeded 65536 bytes"@)
        } else {
            match success {
                None => Err("native service provider wait failed"@),
                Some(false) => Err("native service provider exited unsuccessfully"@),
                Some(true) => match document {
                    Some(value) => Ok(value),
                    None => Err("native service provider returned invalid JSON"@),
                },
            }
        },
    }
}

/// The bytes a run printed, where it came that far.
pub open spec fn printed_bytes(run: ProviderRun) -> Seq<u8> {
    match run {
        ProviderRun::Printed { bytes, .. } => bytes@,
        _ => Seq::empty(),
    }
}

/// What a run gave, `document` being what its output holds. Size counts first, then the exit, then
/// the document.
pub fn settle_with(run: &ProviderRun, document: Option<Json>) -> (r: Result<Json, &'static str>)
    ensures
        served(r) == run_result(*run, opt_json(document)),
{
    match run {
        ProviderRun::NotStarted => Err("native service provider could not be started"),
        ProviderRun::NoInput => Err("native service provider stdin unavailable"),
        ProviderRun::NoOutput => Err("native service provider stdout unavailable"),
        ProviderRun::InputFailed => Err("native service provider input failed"),
        ProviderRun::OutputFailed => Err("native service provider output failed"),
        ProviderRun::TimedOut => Err("native service provider timed out"),
        ProviderRun::Printed { bytes, success } => {
            if bytes.len() as u64 > MAX_RESPONSE_BYTES {
                return Err("native service provider response exceeded 65536 bytes");
            }
            match success {
                None => Err("native service provider wait failed"),
                Some(false) => Err("native service provider exited unsuccessfully"),
                Some(true) => match document {
                    Some(value) => Ok(value),
                    None => Err("native service provider returned invalid JSON"),
                },
            }
        },
    }
}

/// What a run gave.
pub fn settle(run: &ProviderRun) -> (r: Result<Json, &'static str>)
    ensures
        served(r) == run_result(*run, parsed(printed_bytes(*run))),
{
    let document = match run {
        ProviderRun::Printed { bytes, .. } => parse(bytes.as_slice()),
        _ => None,
    };
    settle_with(run, document)
}

/// What a service request is answered with after its provider's run.
pub open spec fn concluded(kind: ServiceKindView, provided: Result<JsonView, Seq<char>>) -> Result<JsonView, Seq<char>> {
    match provided {
        Err(fault) => Err(fault),
        Ok(document) => service_answer(kind, document),
    }
}

/// What a service request is answered with after its provider's run.
pub fn conclude(kind: &ServiceKind, run: &ProviderRun) -> (r: Result<Json, &'static str>)
    ensures
        served(r) == concluded(kind@, run_result(*run, parsed(printed_bytes(*run)))),
{
    match settle(run) {
        Err(fault) => Err(fault),
        Ok(document) => answer(kind, &document),
    }
}

/// How the external login starts.
#[derive(Debug)]
pub enum LoginPlan {
    /// No provider is configured: there is nothing to log in with.
    Skip,
    Run(Invocation),
    Fail(HarnessError),
}

pub open spec fn login_prompt() -> JsonView {
    JsonView::Object(map!["type"@ => JsonView::Text("chatgptAuthTokens"@)])
}

impl NativeServiceProviders {
    pub fn login_plan(&self) -> (r: LoginPlan)
        ensures
            self.external_auth_command@.len() == 0 ==> r is Skip,
            self.external_auth_command@.len() > 0 ==> match invocation(
                self.external_auth_command@,
                "account/login/start"@,
                login_prompt(),
            ) {
                Ok(run) => r matches LoginPlan::Run(found) && found@ == run,
                Err(fault) => r matches LoginPlan::Fail(error) && error@ == HarnessErrorView::Protocol(fault),
            },
    {
        if self.external_auth_command.len() == 0 {
            return LoginPlan::Skip;
        }
        let prompt = Json::object().with("type", Json::text("chatgptAuthTokens"));
        assert(prompt@ =~= login_prompt());
        match invoke(&self.external_auth_command, "account/login/start", prompt) {
            Ok(run) => LoginPlan::Run(run),
            Err(fault) => LoginPlan::Fail(HarnessError::protocol(fault)),
        }
    }
}

/// The parameters of the login request, from what the provider's run gave.
pub open spec fn login_request(provided: Result<JsonView, Seq<char>>) -> Result<JsonView, HarnessErrorView> {
    match provided {
        Err(fault) => Err(HarnessErrorView::Protocol(fault)),
        Ok(document) => match auth_reply(document) {
            Err(fault) => Err(HarnessErrorView::Protocol(fault)),
            Ok(reply) => Ok(
                JsonView::Object(reply->Object_0.insert("type"@, JsonView::Text("chatgptAuthTokens"@))),
            ),
        },
    }
}

pub fn login_params(provided: Result<Json, &'static str>) -> (r: Result<Json, HarnessError>)
    ensures
        outcome(r) == login_request(served(provided)),
{
    match provided {
        Err(fault) => Err(HarnessError::protocol(fault)),
        Ok(document) => match auth_response(&document) {
            Err(fault) => Err(HarnessError::protocol(fault)),
            Ok(reply) => Ok(reply.with("type", Json::text("chatgptAuthTokens"))),
        },
    }
}

/// How the login request ended.
#[derive(Debug)]
pub enum LoginReply {
    TimedOut,
    Rejected(HarnessError),
    Answered(Json),
}

pub open spec fn login_verdict(reply: LoginReply) -> Result<(), HarnessErrorView> {
    match reply {
        LoginReply::TimedOut => Err(HarnessErrorView::Protocol("external auth login timed out"@)),
        LoginReply::Rejected(_) => Err(HarnessErrorView::Protocol("Codex rejected external auth login"@)),
        LoginReply::Answered(value) => if text_at(value@, "type"@) == Some("chatgptAuthTokens"@) {
            Ok(())
        } else {
            Err(HarnessErrorView::Protocol("Codex returned an unexpected external auth login response"@))
        },
    }
}

/// Ends the login. An upstream failure is never passed on in its own words: it may echo credentials.
pub fn finish_login(reply: &LoginReply) -> (r: Result<(), HarnessError>)
    ensures
        outcome(r) == login_verdict(*reply),
{
    match reply {
        LoginReply::TimedOut => Err(HarnessError::protocol("external auth login timed out")),
        LoginReply::Rejected(_) => Err(HarnessError::protocol("Codex rejected external auth login")),
        LoginReply::Answered(value) => match value.text_at("type") {
            Some(kind) if same(kind, "chatgptAuthTokens") => Ok(()),
            _ => Err(HarnessError::protocol("Codex returned an unexpected external auth login response")),
        },
    }
}

/// The words in which a service request can fail.
pub open spec fn fixed_words(message: Seq<char>) -> bool {
    ||| message == missing_field()
    ||| message == "native service provider returned invalid chatgptPlanType"@
    ||| message == "native service unavailable: configure a trusted host provider in harness configuration"@
    ||| message == "native service provider executable must be an absolute path"@
    ||| message == "unsupported native auth refresh reason"@
    ||| message == "invalid native auth refresh account hint"@
    ||| message == "unsupported native service"@
    ||| message == "native auth provider attempted to change accounts during refresh"@
    ||| message == "native service provider could not be started"@
    ||| message == "native service provider stdin unavailable"@
    ||| message == "native service provider stdout unavailable"@
    ||| message == "native service provider input failed"@
    ||| message == "native service provider output failed"@
    ||| message == "native service provider timed out"@
    ||| message == "native service provider response exceeded 65536 bytes"@
    ||| message == "native service provider wait failed"@
    ||| message == "native service provider exited unsuccessfully"@
    ||| message == "native service provider returned invalid JSON"@
}

/// No failure echoes anything a provider printed or a request carried: whatever the inputs, a failure
/// is told in fixed words.
pub proof fn law_failures_never_echo(
    attestation: Seq<String>,
    auth: Seq<String>,
    request: ServerRequestView,
    kind: ServiceKindView,
    run: ProviderRun,
    document: JsonView,
    read: Option<JsonView>,
)
    ensures
        service_plan(attestation, auth, request) matches Err(message) ==> fixed_words(message),
        run_result(run, read) matches Err(message) ==> fixed_words(message),
        service_answer(kind, document) matches Err(message) ==> fixed_words(message),
        auth_reply(document) matches Err(message) ==> fixed_words(message),
        login_request(run_result(run, read)) matches Err(error) ==> (error matches HarnessErrorView::Protocol(message)
            && fixed_words(message)),
{
}

/// No provider runs unless it is configured: without commands every service request is refused before
/// anything runs, and there is no login.
pub proof fn law_nothing_runs_by_default(request: ServerRequestView)
    ensures
        service_plan(Seq::empty(), Seq::empty(), request) is Err,
        !misplaced(Seq::<String>::empty()),
{
}

/// A refresh never moves to another account: where the request names one, a successful answer is for
/// that account.
pub proof fn law_refresh_keeps_the_account(account: Seq<char>, document: JsonView)
    ensures
        service_answer(ServiceKindView::Refresh(Some(account)), document) matches Ok(reply) ==> text_at(
            reply,
            "chatgptAccountId"@,
        ) == Some(account),
{
}

/// Answers hold the reply's fields and nothing else a provider printed.
pub proof fn law_other_fields_are_discarded(kind: ServiceKindView, document: JsonView)
    ensures
        service_answer(kind, document) matches Ok(reply) ==> (reply matches JsonView::Object(entries) && entries.dom()
            == (match kind {
            ServiceKindView::Attestation => set!["token"@],
            ServiceKindView::Refresh(_) => set!["accessToken"@, "chatgptAccountId"@, "chatgptPlanType"@],
        })),
{
    if let Ok(reply) = service_answer(kind, document) {
        match kind {
            ServiceKindView::Attestation => {
                assert(reply->Object_0.dom() =~= set!["token"@]);
            },
            ServiceKindView::Refresh(_) => {
                assert(reply->Object_0.dom() =~= set!["accessToken"@, "chatgptAccountId"@, "chatgptPlanType"@]);
            },
        }
    }
}

/// The names that the services use are told apart.
proof fn lemma_service_names()
    ensures
        "accessToken"@ != "chatgptAccountId"@,
        "accessToken"@ != "chatgptPlanType"@,
        "accessToken"@ != "type"@,
        "chatgptAccountId"@ != "chatgptPlanType"@,
        "chatgptAccountId"@ != "type"@,
        "chatgptPlanType"@ != "type"@,
        "version"@ != "method"@,
        "version"@ != "params"@,
        "method"@ != "params"@,
        "attestation/generate"@ != "account/chatgptAuthTokens/refresh"@,
{
    reveal_strlit("accessToken");
    reveal_strlit("chatgptAccountId");
    reveal_strlit("chatgptPlanType");
    reveal_strlit("type");
    reveal_strlit("version");
    reveal_strlit("method");
    reveal_strlit("params");
    reveal_strlit("attestation/generate");
    reveal_strlit("account/chatgptAuthTokens/refresh");
    assert("accessToken"@.len() != "chatgptAccountId"@.len());
    assert("accessToken"@.len() != "chatgptPlanType"@.len());
    assert("accessToken"@.len() != "type"@.len());
    assert("chatgptAccountId"@.len() != "chatgptPlanType"@.len());
    assert("chatgptAccountId"@.len() != "type"@.len());
    assert("chatgptPlanType"@.len() != "type"@.len());
    assert("version"@.len() != "method"@.len());
    assert("version"@.len() != "params"@.len());
    assert("method"@[0] != "params"@[0]);
    assert("attestation/generate"@.len() != "account/chatgptAuthTokens/refresh"@.len());
}

/// A path is absolute exactly where a slash comes first.
pub proof fn law_absolute_paths_begin_with_a_slash(c: char, rest: Seq<char>)
    ensures
        absolute(seq![c] + rest) <==> c == '/',
        !absolute(Seq::empty()),
{
    assert((seq![c] + rest)[0] == c);
}

/// Credentials are taken exactly where token and account are texts that show something and the plan is a text or
/// left out; each is then handed on as the provider gave it.
pub proof fn law_credentials_are_handed_on(document: JsonView)
    ensures
        auth_reply(document) is Ok <==> {
            &&& at(document, "accessToken"@) matches JsonView::Text(token) && !blank(token)
            &&& at(document, "chatgptAccountId"@) matches JsonView::Text(account) && !blank(account)
            &&& at(document, "chatgptPlanType"@) is Null || at(document, "chatgptPlanType"@) is Text
        },
        auth_reply(document) matches Ok(reply) ==> {
            &&& member(reply, "accessToken"@) == Some(at(document, "accessToken"@))
            &&& member(reply, "chatgptAccountId"@) == Some(at(document, "chatgptAccountId"@))
            &&& member(reply, "chatgptPlanType"@) == Some(at(document, "chatgptPlanType"@))
        },
        auth_reply(document) matches Err(why) ==> ("native service provider returned invalid chatgptPlanType"@ == why <==> (
        at(document, "accessToken"@) matches JsonView::Text(token) && !blank(token)) && (at(document, "chatgptAccountId"@)
            matches JsonView::Text(account) && !blank(account))),
{
    lemma_service_names();
    reveal_strlit("native service provider returned invalid chatgptPlanType");
    reveal_strlit("native service provider response has a missing or empty required field");
    assert("native service provider returned invalid chatgptPlanType"@.len()
        != "native service provider response has a missing or empty required field"@.len());
}

/// An attestation is answered with the provider's token, and with nothing where there is no token to show.
pub proof fn law_attestations_hand_on_the_token(document: JsonView)
    ensures
        service_answer(ServiceKindView::Attestation, document) is Ok <==> (at(document, "token"@) matches JsonView::Text(token)
            && !blank(token)),
        service_answer(ServiceKindView::Attestation, document) matches Ok(reply) ==> member(reply, "token"@) == Some(
            at(document, "token"@),
        ),
{
}

/// A refresh is answered with the provider's credentials, unless the request named an account and they are for
/// another.
pub proof fn law_refreshes_hand_on_credentials(account: Option<Seq<char>>, document: JsonView)
    ensures
        service_answer(ServiceKindView::Refresh(account), document) is Ok <==> auth_reply(document) is Ok && (account matches Some(
            previous,
        ) ==> at(document, "chatgptAccountId"@) == JsonView::Text(previous)),
        service_answer(ServiceKindView::Refresh(account), document) matches Ok(reply) ==> auth_reply(document) == Ok::<
            JsonView,
            Seq<char>,
        >(reply),
        auth_reply(document) matches Err(why) ==> service_answer(ServiceKindView::Refresh(account), document) == Err::<
            JsonView,
            Seq<char>,
        >(why),
        auth_reply(document) is Ok ==> (service_answer(ServiceKindView::Refresh(account), document) matches Err(why)
            ==> "native auth provider attempted to change accounts"@.is_prefix_of(why)),
{
    lemma_service_names();
    reveal_strlit("native auth provider attempted to change accounts");
    reveal_strlit("native auth provider attempted to change accounts during refresh");
    assert("native auth provider attempted to change accounts during refresh"@.subrange(0, 49)
        =~= "native auth provider attempted to change accounts"@);
}

/// A provider runs exactly where one is configured by an absolute path: with its own arguments in their order,
/// and with one line to read that holds the request's method and parameters.
pub proof fn law_providers_run_as_configured(command: Seq<String>, method: Seq<char>, params: JsonView)
    ensures
        invocation(command, method, params) is Ok <==> command.len() > 0 && absolute(command[0]@),
        invocation(command, method, params) matches Ok(run) ==> {
            &&& run.command.len() == command.len()
            &&& forall|i: int| 0 <= i < command.len() ==> #[trigger] run.command[i] == command[i]@
            &&& exists|request: JsonView|
                {
                    &&& run.payload == (#[trigger] printed(request)).push('\n')
                    &&& member(request, "version"@) == Some(JsonView::Integer(1))
                    &&& member(request, "method"@) == Some(JsonView::Text(method))
                    &&& member(request, "params"@) == Some(params)
                }
        },
        command.len() == 0 ==> (invocation(command, method, params) matches Err(why) && "native service unavailable"@.is_prefix_of(
            why,
        )),
        command.len() > 0 && !absolute(command[0]@) ==> (invocation(command, method, params) matches Err(why)
            && "must be an absolute path"@.is_suffix_of(why)),
{
    lemma_service_names();
    reveal_strlit("native service unavailable");
    reveal_strlit("native service unavailable: configure a trusted host provider in harness configuration");
    reveal_strlit("must be an absolute path");
    reveal_strlit("native service provider executable must be an absolute path");
    reveal_strlit("\n");
    assert("native service unavailable: configure a trusted host provider in harness configuration"@.subrange(0, 26)
        =~= "native service unavailable"@);
    assert("native service provider executable must be an absolute path"@.subrange(35, 59) =~= "must be an absolute path"@);
    let request = JsonView::Object(
        map!["version"@ => JsonView::Integer(1), "method"@ => JsonView::Text(method), "params"@ => params],
    );
    assert(printed(request) + "\n"@ =~= printed(request).push('\n'));
    assert(payload_line(method, params) == printed(request).push('\n'));
}

/// Each service has its own provider: an attestation runs the one for attestations, a refresh the one for
/// credentials, both with the request's own parameters. A refresh is planned only after a refusal of the old
/// credentials, and is bound to the account that the request names.
pub proof fn law_services_have_their_own_provider(
    attestation: Seq<String>,
    auth: Seq<String>,
    body: RequestBodyView,
    params: JsonView,
    other: Seq<char>,
)
    requires
        body == RequestBodyView::AuthRefresh(params) || body == RequestBodyView::Unmodelled(Some(params)),
        other != "attestation/generate"@,
        other != "account/chatgptAuthTokens/refresh"@,
    ensures
        ({
            let method = "attestation/generate"@;
            match invocation(attestation, method, params) {
                Ok(run) => service_plan(attestation, auth, ServerRequestView { method, body }) == Ok::<
                    (ServiceKindView, InvocationView),
                    Seq<char>,
                >((ServiceKindView::Attestation, run)),
                Err(why) => service_plan(attestation, auth, ServerRequestView { method, body }) == Err::<
                    (ServiceKindView, InvocationView),
                    Seq<char>,
                >(why),
            }
        }),
        ({
            let method = "account/chatgptAuthTokens/refresh"@;
            let plan = service_plan(attestation, auth, ServerRequestView { method, body });
            let hint = member(params, "previousAccountId"@);
            let fits = hint is None || hint == Some(JsonView::Null) || (hint matches Some(JsonView::Text(account)) && !blank(
                account,
            ));
            &&& plan is Ok <==> at(params, "reason"@) == JsonView::Text("unauthorized"@) && fits && invocation(
                auth,
                method,
                params,
            ) is Ok
            &&& plan matches Ok((kind, run)) ==> invocation(auth, method, params) == Ok::<InvocationView, Seq<char>>(run) && (
            match hint {
                Some(JsonView::Text(account)) => kind == ServiceKindView::Refresh(Some(account)),
                _ => kind == ServiceKindView::Refresh(None),
            })
            &&& plan matches Err(why) ==> {
                &&& at(params, "reason"@) != JsonView::Text("unauthorized"@) ==> why == "unsupported native auth refresh reason"@
                &&& at(params, "reason"@) == JsonView::Text("unauthorized"@) && !fits ==> why
                    == "invalid native auth refresh account hint"@
                &&& at(params, "reason"@) == JsonView::Text("unauthorized"@) && fits ==> invocation(auth, method, params)
                    == Err::<InvocationView, Seq<char>>(why)
            }
        }),
        service_plan(attestation, auth, ServerRequestView { method: other, body }) is Err,
        host_service("attestation/generate"@) && host_service("account/chatgptAuthTokens/refresh"@) && !host_service(other),
{
    lemma_service_names();
}

/// A run gives a document exactly where the provider exited successfully and printed one JSON document within the
/// limit; the size counts before the exit, and the exit before the document.
pub proof fn law_runs_give_their_document(run: ProviderRun, document: Option<JsonView>)
    ensures
        run_result(run, document) matches Ok(value) ==> document == Some(value),
        run_result(run, document) is Ok <==> document is Some && (run matches ProviderRun::Printed { bytes, success }
            && bytes@.len() <= 65_536 && success == Some(true)),
        run matches ProviderRun::Printed { bytes, success } ==> (run_result(run, document) matches Err(why) ==> {
            &&& bytes@.len() > 65_536 ==> "exceeded 65536 bytes"@.is_suffix_of(why)
            &&& bytes@.len() <= 65_536 && success is None ==> "wait failed"@.is_suffix_of(why)
            &&& bytes@.len() <= 65_536 && success == Some(false) ==> "exited unsuccessfully"@.is_suffix_of(why)
            &&& bytes@.len() <= 65_536 && success == Some(true) ==> "invalid JSON"@.is_suffix_of(why)
        }),
        run is NotStarted ==> (run_result(run, document) matches Err(why) && "could not be started"@.is_suffix_of(why)),
        run is NoInput ==> (run_result(run, document) matches Err(why) && "stdin unavailable"@.is_suffix_of(why)),
        run is NoOutput ==> (run_result(run, document) matches Err(why) && "stdout unavailable"@.is_suffix_of(why)),
        run is InputFailed ==> (run_result(run, document) matches Err(why) && "input failed"@.is_suffix_of(why)),
        run is OutputFailed ==> (run_result(run, document) matches Err(why) && "output failed"@.is_suffix_of(why)),
        run is TimedOut ==> (run_result(run, document) matches Err(why) && "timed out"@.is_suffix_of(why)),
{
    lemma_run_words();
}

proof fn lemma_run_words()
    ensures
        "exceeded 65536 bytes"@.is_suffix_of("native service provider response exceeded 65536 bytes"@),
        "wait failed"@.is_suffix_of("native service provider wait failed"@),
        "exited unsuccessfully"@.is_suffix_of("native service provider exited unsuccessfully"@),
        "invalid JSON"@.is_suffix_of("native service provider returned invalid JSON"@),
        "could not be started"@.is_suffix_of("native service provider could not be started"@),
        "stdin unavailable"@.is_suffix_of("native service provider stdin unavailable"@),
        "stdout unavailable"@.is_suffix_of("native service provider stdout unavailable"@),
        "input failed"@.is_suffix_of("native service provider input failed"@),
        "output failed"@.is_suffix_of("native service provider output failed"@),
        "timed out"@.is_suffix_of("native service provider timed out"@),
{
    reveal_strlit("exceeded 65536 bytes");
    reveal_strlit("native service provider response exceeded 65536 bytes");
    assert("native service provider response exceeded 65536 bytes"@.subrange(33, 53) =~= "exceeded 65536 bytes"@);
    reveal_strlit("wait failed");
    reveal_strlit("native service provider wait failed");
    assert("native service provider wait failed"@.subrange(24, 35) =~= "wait failed"@);
    reveal_strlit("exited unsuccessfully");
    reveal_strlit("native service provider exited unsuccessfully");
    assert("native service provider exited unsuccessfully"@.subrange(24, 45) =~= "exited unsuccessfully"@);
    reveal_strlit("invalid JSON");
    reveal_strlit("native service provider returned invalid JSON");
    assert("native service provider returned invalid JSON"@.subrange(33, 45) =~= "invalid JSON"@);
    reveal_strlit("could not be started");
    reveal_strlit("native service provider could not be started");
    assert("native service provider could not be started"@.subrange(24, 44) =~= "could not be started"@);
    reveal_strlit("stdin unavailable");
    reveal_strlit("native service provider stdin unavailable");
    assert("native service provider stdin unavailable"@.subrange(24, 41) =~= "stdin unavailable"@);
    reveal_strlit("stdout unavailable");
    reveal_strlit("native service provider stdout unavailable");
    assert("native service provider stdout unavailable"@.subrange(24, 42) =~= "stdout unavailable"@);
    reveal_strlit("input failed");
    reveal_strlit("native service provider input failed");
    assert("native service provider input failed"@.subrange(24, 36) =~= "input failed"@);
    reveal_strlit("output failed");
    reveal_strlit("native service provider output failed");
    assert("native service provider output failed"@.subrange(24, 37) =~= "output failed"@);
    reveal_strlit("timed out");
    reveal_strlit("native service provider timed out");
    assert("native service provider timed out"@.subrange(24, 33) =~= "timed out"@);
}

/// The bytes of a run are those it printed, and without a run there are none.
pub proof fn law_printed_bytes_are_the_runs_own(run: ProviderRun, document: Option<JsonView>, kind: ServiceKindView)
    ensures
        run matches ProviderRun::Printed { bytes, .. } ==> printed_bytes(run) == bytes@,
        !(run is Printed) ==> printed_bytes(run).len() == 0,
        run_result(run, document) matches Err(why) ==> concluded(kind, run_result(run, document)) == Err::<JsonView, Seq<char>>(
            why,
        ),
        run_result(run, document) matches Ok(value) ==> concluded(kind, run_result(run, document)) == service_answer(kind, value),
{
}

/// A login sends the provider's credentials under the type that names them, and nothing where there are none.
pub proof fn law_logins_send_the_credentials(provided: Result<JsonView, Seq<char>>)
    ensures
        login_request(provided) is Ok <==> (provided matches Ok(document) && auth_reply(document) is Ok),
        login_request(provided) matches Ok(request) ==> (provided matches Ok(document) && {
            &&& member(request, "type"@) == Some(JsonView::Text("chatgptAuthTokens"@))
            &&& member(request, "accessToken"@) == Some(at(document, "accessToken"@))
            &&& member(request, "chatgptAccountId"@) == Some(at(document, "chatgptAccountId"@))
            &&& member(request, "chatgptPlanType"@) == Some(at(document, "chatgptPlanType"@))
        }),
        provided matches Err(why) ==> login_request(provided) == Err::<JsonView, HarnessErrorView>(
            HarnessErrorView::Protocol(why),
        ),
        member(login_prompt(), "type"@) == Some(JsonView::Text("chatgptAuthTokens"@)),
{
    lemma_service_names();
}

/// A login succeeds exactly where its answer is of the type that was sent. A refusal is told alike whatever it
/// was in.
pub proof fn law_logins_end_with_their_type(reply: LoginReply, first: HarnessError, second: HarnessError)
    ensures
        login_verdict(reply) is Ok <==> (reply matches LoginReply::Answered(value) && at(value@, "type"@) == JsonView::Text(
            "chatgptAuthTokens"@,
        )),
        login_verdict(LoginReply::Rejected(first)) == login_verdict(LoginReply::Rejected(second)),
        login_verdict(LoginReply::TimedOut) matches Err(HarnessErrorView::Protocol(text)) && "timed out"@.is_suffix_of(text),
        login_verdict(LoginReply::Rejected(first)) matches Err(HarnessErrorView::Protocol(text)) && "Codex rejected"@.is_prefix_of(
            text,
        ),
        reply is Answered ==> (login_verdict(reply) matches Err(error) ==> (error matches HarnessErrorView::Protocol(text)
            && "Codex returned an unexpected"@.is_prefix_of(text))),
{
    reveal_strlit("timed out");
    reveal_strlit("external auth login timed out");
    assert("external auth login timed out"@.subrange(20, 29) =~= "timed out"@);
    reveal_strlit("Codex rejected");
    reveal_strlit("Codex rejected external auth login");
    assert("Codex rejected external auth login"@.subrange(0, 14) =~= "Codex rejected"@);
    reveal_strlit("Codex returned an unexpected");
    reveal_strlit("Codex returned an unexpected external auth login response");
    assert("Codex returned an unexpected external auth login response"@.subrange(0, 28)
        =~= "Codex returned an unexpected"@);
}

} // verus!
