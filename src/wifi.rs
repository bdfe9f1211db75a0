use vstd::prelude::*;
use vstd::string::StringSliceAdditionalSpecFns;

verus! {

/// Longest network identifier accepted, in bytes.
pub const SSID_MAX: usize = 32;

/// Longest pre-shared credential accepted, in bytes.
pub const PASSWORD_MAX: usize = 64;

/// Pause between two connection attempts, in milliseconds.
pub const RETRY_MS: u32 = 1000;

/// heapless's fixed-capacity string, carried opaque: the credentials are
/// handed to the interface in it.
#[verifier::external_type_specification]
#[verifier::external_body]
pub struct ExBoundedString<const N: usize>(heapless::String<N>);

/// Relies on heapless's `TryFrom<&str>` for `String<N>`: it pushes the text
/// into an empty string and fails exactly when its bytes exceed `N`.
#[verifier::external_body]
fn bounded_text<const N: usize>(s: &str) -> (r: Option<heapless::String<N>>)
    ensures
        r.is_some() <==> s.spec_bytes().len() <= N,
{
    heapless::String::<N>::try_from(s).ok()
}

/// How the network authenticates a station.
#[derive(Clone, Copy, Debug, PartialEq, Eq, Structural)]
pub enum AuthPolicy {
    Open,
    Wep,
    Wpa,
    Wpa2Personal,
    WpaWpa2Personal,
    Wpa3Personal,
    Wpa2Wpa3Personal,
}

/// Why joining the network cannot go on.
#[derive(Clone, Copy, Debug, PartialEq, Eq, Structural)]
pub enum JoinError {
    SsidTooLong,
    PasswordTooLong,
    ConfigureFailed,
    StartFailed,
}

/// Where the join stands.
#[derive(Clone, Copy, Debug, PartialEq, Eq, Structural)]
pub enum JoinPhase {
    /// Nothing has been asked of the interface yet.
    Idle,
    /// The station configuration was handed to the interface.
    Configuring,
    /// The radio was asked to start.
    Starting,
    /// The connection status was asked for.
    Querying,
    /// A (re)connect request was issued.
    Reconnecting,
    /// The retry pause is running.
    Waiting,
    /// The interface reported a connection: the join is over.
    Connected,
    /// A fatal failure ended the join.
    Failed(JoinError),
}

/// What the interface reported back.
#[derive(Clone, Copy, Debug, PartialEq, Eq, Structural)]
pub enum JoinEvent {
    /// The join is asked to begin.
    Begin,
    ConfigureOk,
    ConfigureFailed,
    StartOk,
    StartFailed,
    /// The status query said the station is connected.
    Connected,
    /// The status query said the station is not connected yet.
    NotConnected,
    /// The status query itself failed.
    StatusError,
    ConnectOk,
    ConnectFailed,
    /// The retry pause is over.
    Slept,
}

/// What the driver of the interface is to do next.
#[derive(Clone, Copy, Debug, PartialEq, Eq, Structural)]
pub enum JoinAction {
    /// Configure station mode with the credentials, with a fast scan.
    Configure,
    /// Start the interface.
    Start,
    /// Ask whether the station is connected.
    QueryStatus,
    /// Issue a (re)connect request.
    Connect,
    /// Sleep for this many milliseconds.
    Sleep(u32),
    /// Hand the connected interface to the caller.
    Finish,
    /// Give up: the error is fatal.
    Abort(JoinError),
}

/// What a phase waits for the driver to do.
pub open spec fn awaited(p: JoinPhase) -> JoinAction {
    match p {
        JoinPhase::Idle => JoinAction::Configure,
        JoinPhase::Configuring => JoinAction::Configure,
        JoinPhase::Starting => JoinAction::Start,
        JoinPhase::Querying => JoinAction::QueryStatus,
        JoinPhase::Reconnecting => JoinAction::Connect,
        JoinPhase::Waiting => JoinAction::Sleep(RETRY_MS),
        JoinPhase::Connected => JoinAction::Finish,
        JoinPhase::Failed(e) => JoinAction::Abort(e),
    }
}

/// One transition: the next phase and the action that it asks for. An event
/// that the phase does not wait for leaves it as it is and repeats its action.
pub open spec fn next(p: JoinPhase, e: JoinEvent) -> (JoinPhase, JoinAction) {
    match (p, e) {
        (JoinPhase::Idle, JoinEvent::Begin) => (JoinPhase::Configuring, JoinAction::Configure),
        (JoinPhase::Configuring, JoinEvent::ConfigureOk) => (JoinPhase::Starting, JoinAction::Start),
        (JoinPhase::Configuring, JoinEvent::ConfigureFailed) => (
            JoinPhase::Failed(JoinError::ConfigureFailed),
            JoinAction::Abort(JoinError::ConfigureFailed),
        ),
        (JoinPhase::Starting, JoinEvent::StartOk) => (JoinPhase::Querying, JoinAction::QueryStatus),
        (JoinPhase::Starting, JoinEvent::StartFailed) => (
            JoinPhase::Failed(JoinError::StartFailed),
            JoinAction::Abort(JoinError::StartFailed),
        ),
        (JoinPhase::Querying, JoinEvent::Connected) => (JoinPhase::Connected, JoinAction::Finish),
        (JoinPhase::Querying, JoinEvent::NotConnected) => (JoinPhase::Reconnecting, JoinAction::Connect),
        (JoinPhase::Querying, JoinEvent::StatusError) => (JoinPhase::Reconnecting, JoinAction::Connect),
        (JoinPhase::Reconnecting, JoinEvent::ConnectOk) => (JoinPhase::Waiting, JoinAction::Sleep(RETRY_MS)),
        (JoinPhase::Reconnecting, JoinEvent::ConnectFailed) => (JoinPhase::Waiting, JoinAction::Sleep(RETRY_MS)),
        (JoinPhase::Waiting, JoinEvent::Slept) => (JoinPhase::Querying, JoinAction::QueryStatus),
        _ => (p, awaited(p)),
    }
}

/// The phase reached and the actions asked for when `events` arrive one by
/// one, starting in phase `p`.
pub open spec fn run(p: JoinPhase, events: Seq<JoinEvent>) -> (JoinPhase, Seq<JoinAction>)
    decreases events.len(),
{
    if events.len() == 0 {
        (p, Seq::<JoinAction>::empty())
    } else {
        let (q, a) = next(p, events[0]);
        let (r, rest) = run(q, events.drop_first());
        (r, seq![a] + rest)
    }
}

/// The event that the outcome of a connect request gives.
pub open spec fn connect_event(ok: bool) -> JoinEvent {
    if ok {
        JoinEvent::ConnectOk
    } else {
        JoinEvent::ConnectFailed
    }
}

/// What an interface reports from its first status query on when it is not
/// connected once per entry of `connects` (whose entries say whether each
/// connect request succeeded) and connected after that.
pub open spec fn retry_events(connects: Seq<bool>) -> Seq<JoinEvent>
    decreases connects.len(),
{
    if connects.len() == 0 {
        seq![JoinEvent::Connected]
    } else {
        seq![JoinEvent::NotConnected, connect_event(connects[0]), JoinEvent::Slept]
            + retry_events(connects.drop_first())
    }
}

/// `n` rounds of connect, pause and status query, then the hand-over.
pub open spec fn retry_actions(n: nat) -> Seq<JoinAction>
    decreases n,
{
    if n == 0 {
        seq![JoinAction::Finish]
    } else {
        seq![JoinAction::Connect, JoinAction::Sleep(RETRY_MS), JoinAction::QueryStatus]
            + retry_actions((n - 1) as nat)
    }
}

/// How many times `a` occurs in `s`.
pub open spec fn occurrences(s: Seq<JoinAction>, a: JoinAction) -> nat
    decreases s.len(),
{
    if s.len() == 0 {
        0
    } else {
        (if s[0] == a {
            1nat
        } else {
            0nat
        }) + occurrences(s.drop_first(), a)
    }
}

proof fn lemma_run_one(p: JoinPhase, x: JoinEvent, rest: Seq<JoinEvent>)
    ensures
        run(p, seq![x] + rest) == (run(next(p, x).0, rest).0, seq![next(p, x).1] + run(next(p, x).0, rest).1),
{
    let s = seq![x] + rest;
    assert(s.drop_first() =~= rest);
}

proof fn lemma_run_three(p: JoinPhase, x: JoinEvent, y: JoinEvent, z: JoinEvent, rest: Seq<JoinEvent>)
    ensures
        ({
            let p1 = next(p, x).0;
            let p2 = next(p1, y).0;
            let p3 = next(p2, z).0;
            run(p, seq![x, y, z] + rest) == (
                run(p3, rest).0,
                seq![next(p, x).1, next(p1, y).1, next(p2, z).1] + run(p3, rest).1,
            )
        }),
{
    let p1 = next(p, x).0;
    let p2 = next(p1, y).0;
    let p3 = next(p2, z).0;
    lemma_run_one(p2, z, rest);
    lemma_run_one(p1, y, seq![z] + rest);
    lemma_run_one(p, x, seq![y] + (seq![z] + rest));
    assert(seq![x] + (seq![y] + (seq![z] + rest)) =~= seq![x, y, z] + rest);
    let acts = run(p3, rest).1;
    assert(seq![next(p, x).1] + (seq![next(p1, y).1] + (seq![next(p2, z).1] + acts))
        =~= seq![next(p, x).1, next(p1, y).1, next(p2, z).1] + acts);
}

proof fn lemma_occurrences_concat(s: Seq<JoinAction>, t: Seq<JoinAction>, a: JoinAction)
    ensures
        occurrences(s + t, a) == occurrences(s, a) + occurrences(t, a),
    decreases s.len(),
{
    if s.len() > 0 {
        assert((s + t).drop_first() =~= s.drop_first() + t);
        lemma_occurrences_concat(s.drop_first(), t, a);
    } else {
        assert(s + t =~= t);
    }
}

/// Counts the connect requests and pauses in `retry_actions(n)`.
proof fn lemma_retry_actions_counts(n: nat)
    ensures
        occurrences(retry_actions(n), JoinAction::Connect) == n,
        occurrences(retry_actions(n), JoinAction::Sleep(RETRY_MS)) == n,
        occurrences(retry_actions(n), JoinAction::Finish) == 1,
    decreases n,
{
    reveal_with_fuel(occurrences, 4);
    if n > 0 {
        let head = seq![JoinAction::Connect, JoinAction::Sleep(RETRY_MS), JoinAction::QueryStatus];
        lemma_retry_actions_counts((n - 1) as nat);
        lemma_occurrences_concat(head, retry_actions((n - 1) as nat), JoinAction::Connect);
        lemma_occurrences_concat(head, retry_actions((n - 1) as nat), JoinAction::Sleep(RETRY_MS));
        lemma_occurrences_concat(head, retry_actions((n - 1) as nat), JoinAction::Finish);
        assert(head.drop_first().drop_first().drop_first() =~= Seq::<JoinAction>::empty());
        assert(head.drop_first().drop_first() =~= seq![JoinAction::QueryStatus]);
        assert(head.drop_first() =~= seq![JoinAction::Sleep(RETRY_MS), JoinAction::QueryStatus]);
    } else {
        assert(seq![JoinAction::Finish].drop_first() =~= Seq::<JoinAction>::empty());
    }
}

/// A station that is not connected on `connects.len()` status queries and
/// then is connected ends the join connected, after one connect request and
/// one pause per negative answer, whatever the connect requests returned; the
/// hand-over is the last action asked for, and it comes exactly once.
pub proof fn lemma_retry_until_connected(connects: Seq<bool>)
    ensures
        run(JoinPhase::Querying, retry_events(connects))
            == (JoinPhase::Connected, retry_actions(connects.len())),
        occurrences(retry_actions(connects.len()), JoinAction::Connect) == connects.len(),
        occurrences(retry_actions(connects.len()), JoinAction::Sleep(RETRY_MS)) == connects.len(),
        occurrences(retry_actions(connects.len()), JoinAction::Finish) == 1,
        retry_actions(connects.len()).last() == JoinAction::Finish,
    decreases connects.len(),
{
    lemma_retry_actions_counts(connects.len());
    reveal_with_fuel(run, 2);
    if connects.len() > 0 {
        let rest = connects.drop_first();
        lemma_retry_until_connected(rest);
        lemma_run_three(
            JoinPhase::Querying,
            JoinEvent::NotConnected,
            connect_event(connects[0]),
            JoinEvent::Slept,
            retry_events(rest),
        );
    } else {
        assert(seq![JoinEvent::Connected].drop_first() =~= Seq::<JoinEvent>::empty());
    }
}

/// The whole join, from a fresh station: configure, start, then retry until
/// the station is connected, however many status queries say it is not.
pub proof fn lemma_join_from_idle(connects: Seq<bool>)
    ensures
        run(
            JoinPhase::Idle,
            seq![JoinEvent::Begin, JoinEvent::ConfigureOk, JoinEvent::StartOk] + retry_events(connects),
        ) == (
            JoinPhase::Connected,
            seq![JoinAction::Configure, JoinAction::Start, JoinAction::QueryStatus]
                + retry_actions(connects.len()),
        ),
{
    lemma_retry_until_connected(connects);
    lemma_run_three(
        JoinPhase::Idle,
        JoinEvent::Begin,
        JoinEvent::ConfigureOk,
        JoinEvent::StartOk,
        retry_events(connects),
    );
}

/// A station that joins one network: its credentials, its authentication
/// policy and the phase of the join.
pub struct Wifi {
    ssid: heapless::String<32>,
    password: heapless::String<64>,
    auth: AuthPolicy,
    phase: JoinPhase,
}

impl Wifi {
    pub closed spec fn phase_of(&self) -> JoinPhase {
        self.phase
    }

    pub closed spec fn auth_of(&self) -> AuthPolicy {
        self.auth
    }

    /// A station for the network `ssid`, in phase `Idle`. A credential longer
    /// than its bound is refused, never truncated.
    pub fn new(ssid: &str, password: &str, auth: AuthPolicy) -> (r: Result<Wifi, JoinError>)
        ensures
            ssid.spec_bytes().len() > SSID_MAX ==> r == Err::<Wifi, JoinError>(JoinError::SsidTooLong),
            ssid.spec_bytes().len() <= SSID_MAX && password.spec_bytes().len() > PASSWORD_MAX
                ==> r == Err::<Wifi, JoinError>(JoinError::PasswordTooLong),
            ssid.spec_bytes().len() <= SSID_MAX && password.spec_bytes().len() <= PASSWORD_MAX
                ==> r is Ok,
            r matches Ok(w) ==> w.phase_of() == JoinPhase::Idle && w.auth_of() == auth,
    {
        let ssid = match bounded_text::<32>(ssid) {
            Some(s) => s,
            None => return Err(JoinError::SsidTooLong),
        };
        let password = match bounded_text::<64>(password) {
            Some(s) => s,
            None => return Err(JoinError::PasswordTooLong),
        };
        Ok(Wifi { ssid, password, auth, phase: JoinPhase::Idle })
    }

    /// The network identifier.
    pub fn ssid(&self) -> &heapless::String<32> {
        &self.ssid
    }

    /// The pre-shared credential.
    pub fn password(&self) -> &heapless::String<64> {
        &self.password
    }

    /// The authentication policy.
    pub fn auth(&self) -> (r: AuthPolicy)
        ensures
            r == self.auth_of(),
    {
        self.auth
    }

    /// The phase of the join.
    pub fn phase(&self) -> (r: JoinPhase)
        ensures
            r == self.phase_of(),
    {
        self.phase
    }

    /// Takes what the interface reported and says what to do next.
    pub fn step(&mut self, event: JoinEvent) -> (action: JoinAction)
        ensures
            (final(self).phase_of(), action) == next(old(self).phase_of(), event),
            final(self).auth_of() == old(self).auth_of(),
    {
        let (phase, action) = match (self.phase, event) {
            (JoinPhase::Idle, JoinEvent::Begin) => (JoinPhase::Configuring, JoinAction::Configure),
            (JoinPhase::Configuring, JoinEvent::ConfigureOk) => (JoinPhase::Starting, JoinAction::Start),
            (JoinPhase::Configuring, JoinEvent::ConfigureFailed) => (
                JoinPhase::Failed(JoinError::ConfigureFailed),
                JoinAction::Abort(JoinError::ConfigureFailed),
            ),
            (JoinPhase::Starting, JoinEvent::StartOk) => (JoinPhase::Querying, JoinAction::QueryStatus),
            (JoinPhase::Starting, JoinEvent::StartFailed) => (
                JoinPhase::Failed(JoinError::StartFailed),
                JoinAction::Abort(JoinError::StartFailed),
            ),
            (JoinPhase::Querying, JoinEvent::Connected) => (JoinPhase::Connected, JoinAction::Finish),
            (JoinPhase::Querying, JoinEvent::NotConnected) => (JoinPhase::Reconnecting, JoinAction::Connect),
            (JoinPhase::Querying, JoinEvent::StatusError) => (JoinPhase::Reconnecting, JoinAction::Connect),
            (JoinPhase::Reconnecting, JoinEvent::ConnectOk) => (JoinPhase::Waiting, JoinAction::Sleep(RETRY_MS)),
            (JoinPhase::Reconnecting, JoinEvent::ConnectFailed) => (JoinPhase::Waiting, JoinAction::Sleep(RETRY_MS)),
            (JoinPhase::Waiting, JoinEvent::Slept) => (JoinPhase::Querying, JoinAction::QueryStatus),
            (p, _) => (p, awaited_action(p)),
        };
        self.phase = phase;
        action
    }
}

/// The action that `p` waits for.
pub fn awaited_action(p: JoinPhase) -> (r: JoinAction)
    ensures
        r == awaited(p),
{
    match p {
        JoinPhase::Idle => JoinAction::Configure,
        JoinPhase::Configuring => JoinAction::Configure,
        JoinPhase::Starting => JoinAction::Start,
        JoinPhase::Querying => JoinAction::QueryStatus,
        JoinPhase::Reconnecting => JoinAction::Connect,
        JoinPhase::Waiting => JoinAction::Sleep(RETRY_MS),
        JoinPhase::Connected => JoinAction::Finish,
        JoinPhase::Failed(e) => JoinAction::Abort(e),
    }
}

} // verus!
