//! What the providers share: the registry of open connections behind the ids the
//! controller holds, and the reason shown when a server refuses a handshake.

use crate::config::{AppConfig, RouteConfig};
use crate::credentials::CredentialStore;
use crate::openai::OpenAiRealtimeConfig;
use crate::qwen::QwenRealtimeConfig;
use crate::soniox::SonioxRealtimeConfig;
use crate::json::{json_has, json_has_at, json_str, json_str_at};
use crate::qwen::present;
use crate::text::{decimal, decimal_string, joined, push_str, to_owned, trim, trim_str, views};
use vstd::prelude::*;

verus! {

/// One live link to a translator. Providers differ entirely below this: wire format,
/// sample rate, how a stop is negotiated.
pub trait Connection {
    fn send_audio(&self, pcm: Vec<u8>) -> Result<(), String>;

    fn stop(&self);
}

/// Where the fields of a refusal sit: under `error` when the body has one, at the top
/// level otherwise.
pub open spec fn error_root(body: Seq<char>) -> Seq<char> {
    if json_has_at(body, "/error"@) {
        "/error"@
    } else {
        Seq::empty()
    }
}

/// The code and message of a refusal shaped `{"code","message"}` at the top level or
/// under `error`, joined with `: `; nothing when it has neither.
pub open spec fn spec_coded_error(body: Seq<char>) -> Option<Seq<char>> {
    let parts = present(seq![
        json_str_at(body, error_root(body) + "/code"@),
        json_str_at(body, error_root(body) + "/message"@),
    ]);
    if parts.len() == 0 {
        None
    } else {
        Some(joined(parts, ": "@))
    }
}

pub fn coded_error(body: &str) -> (r: Option<String>)
    ensures
        crate::json::opt_chars(r) == spec_coded_error(body@),
{
    let mut root = if json_has(body, "/error") {
        to_owned("/error")
    } else {
        String::new()
    };
    let mut code_pointer = root.clone();
    push_str(&mut code_pointer, "/code");
    let mut message_pointer = root.clone();
    push_str(&mut message_pointer, "/message");
    let mut parts: Vec<String> = Vec::new();
    let code = json_str(body, code_pointer.as_str());
    let ghost code_v = crate::json::opt_chars(code);
    if let Some(c) = code {
        if !c.as_str().is_empty() {
            parts.push(c);
        }
    }
    let ghost after_code = views(parts@);
    let message = json_str(body, message_pointer.as_str());
    let ghost message_v = crate::json::opt_chars(message);
    if let Some(m) = message {
        if !m.as_str().is_empty() {
            parts.push(m);
        }
    }
    proof {
        let all = seq![code_v, message_v];
        assert(all.drop_last() =~= seq![code_v]);
        assert(all.drop_last().drop_last() =~= Seq::<Option<Seq<char>>>::empty());
        reveal_with_fuel(present, 3);
        assert(after_code =~= present(seq![code_v]));
        assert(views(parts@) =~= present(all));
        reveal_strlit("/error");
        assert(root@ == error_root(body@));
    }
    if parts.len() == 0 {
        return None;
    }
    Some(crate::text::join_strings(&parts, ": "))
}

/// The text of a handshake the server refused with an HTTP status: the reason in the
/// response body, which the transport's own message drops in favour of the bare status
/// line, or the status alone when the body is empty.
pub open spec fn spec_handshake_error(status: Seq<char>, body: Option<Seq<char>>) -> Seq<char> {
    match body {
        Some(b) if trim(b).len() > 0 => status + " "@ + match spec_coded_error(trim(b)) {
            Some(c) => c,
            None => trim(b),
        },
        _ => "HTTP error: "@ + status,
    }
}

pub fn handshake_error(status: &str, body: Option<&str>) -> (r: String)
    ensures
        r@ == spec_handshake_error(status@, match body {
            Some(b) => Some(b@),
            None => None,
        }),
{
    if let Some(b) = body {
        let trimmed = trim_str(b);
        if !trimmed.as_str().is_empty() {
            let mut out = to_owned(status);
            push_str(&mut out, " ");
            match coded_error(trimmed.as_str()) {
                Some(c) => push_str(&mut out, c.as_str()),
                None => push_str(&mut out, trimmed.as_str()),
            }
            return out;
        }
    }
    let mut out = to_owned("HTTP error: ");
    push_str(&mut out, status);
    out
}

/// Every open connection, of every provider, behind ids the controller treats as opaque.
/// An entry is removed when its session ends, so audio can never reach a closed one.
pub struct ProviderState<C> {
    connections: Vec<(u64, C)>,
    next_id: u64,
}

pub open spec fn ids_of<C>(connections: Seq<(u64, C)>) -> Seq<u64> {
    connections.map_values(|e: (u64, C)| e.0)
}

impl<C: Connection> ProviderState<C> {
    /// The ids of the open connections, oldest first.
    pub closed spec fn ids(&self) -> Seq<u64> {
        ids_of(self.connections@)
    }

    /// The connection registered under an open id.
    pub closed spec fn connection_at(&self, id: u64) -> C {
        self.connections@[choose|i: int| 0 <= i < self.connections@.len() && self.connections@[i].0 == id].1
    }

    /// The last id handed out, or 0 before the first.
    pub closed spec fn issued(&self) -> u64 {
        self.next_id
    }

    /// Ids are handed out in increasing order and never twice.
    pub closed spec fn wf(&self) -> bool {
        forall|i: int| 0 <= i < self.connections@.len() ==> #[trigger] self.connections@[i].0 <= self.next_id
            && forall|j: int| 0 <= j < self.connections@.len() && i != j ==> self.connections@[i].0 != #[trigger] self.connections@[j].0
    }

    pub fn new() -> (r: Self)
        ensures
            r.wf(),
            r.ids().len() == 0,
    {
        let r = ProviderState { connections: Vec::new(), next_id: 0 };
        assert(ids_of(r.connections@) =~= Seq::<u64>::empty());
        r
    }

    /// Whether another connection can be given an id.
    pub fn has_room(&self) -> (r: bool)
        ensures
            r == (self.issued() < u64::MAX),
    {
        self.next_id < u64::MAX
    }

    /// Registers a connection under a fresh id and gives the id.
    pub fn start(&mut self, connection: C) -> (id: u64)
        requires
            old(self).wf(),
            old(self).issued() < u64::MAX,
        ensures
            final(self).wf(),
            id == old(self).issued() + 1,
            final(self).issued() == id,
            !old(self).ids().contains(id),
            final(self).ids() == old(self).ids().push(id),
            final(self).connection_at(id) == connection,
            forall|o: u64| #[trigger] old(self).ids().contains(o) ==> final(self).connection_at(o)
                == old(self).connection_at(o),
    {
        let ghost old_state = *self;
        self.next_id = self.next_id + 1;
        let id = self.next_id;
        let ghost before = self.connections@;
        let ghost kept = connection;
        self.connections.push((id, connection));
        proof {
            assert(ids_of(self.connections@) =~= ids_of(before).push(id));
            if ids_of(before).contains(id) {
                let k = choose|k: int| 0 <= k < ids_of(before).len() && ids_of(before)[k] == id;
                assert(before[k].0 == id);
            }
            let last = before.len() as int;
            assert(self.connections@[last] == (id, kept));
            self.lemma_position_is_connection(id, last);
            assert forall|o: u64| #[trigger] old_state.ids().contains(o) implies self.connection_at(o)
                == old_state.connection_at(o) by {
                let k = old_state.lemma_open_index(o);
                old_state.lemma_position_is_connection(o, k);
                assert(self.connections@[k] == before[k]);
                self.lemma_position_is_connection(o, k);
            }
        }
        id
    }

    fn position(&self, id: u64) -> (r: Option<usize>)
        ensures
            match r {
                Some(i) => i < self.connections@.len() && self.connections@[i as int].0 == id,
                None => !self.ids().contains(id),
            },
    {
        let mut i: usize = 0;
        while i < self.connections.len()
            invariant
                0 <= i <= self.connections@.len(),
                forall|j: int| 0 <= j < i ==> self.connections@[j].0 != id,
            decreases self.connections@.len() - i,
        {
            if self.connections[i].0 == id {
                return Some(i);
            }
            i = i + 1;
        }
        proof {
            if ids_of(self.connections@).contains(id) {
                let k = choose|k: int| 0 <= k < ids_of(self.connections@).len() && ids_of(self.connections@)[k] == id;
                assert(self.connections@[k].0 == id);
            }
        }
        None
    }

    /// The index of an open id's entry is the one the registry's accessor reads.
    proof fn lemma_position_is_connection(&self, id: u64, i: int)
        requires
            self.wf(),
            0 <= i < self.connections@.len(),
            self.connections@[i].0 == id,
        ensures
            self.connection_at(id) == self.connections@[i].1,
    {
        let k = choose|k: int| 0 <= k < self.connections@.len() && self.connections@[k].0 == id;
        assert(0 <= k < self.connections@.len() && self.connections@[k].0 == id);
        if k != i {
            assert(self.connections@[k].0 != self.connections@[i].0);
        }
    }

    /// An open id sits at some index of the registry.
    proof fn lemma_open_index(&self, id: u64) -> (k: int)
        requires
            self.ids().contains(id),
        ensures
            0 <= k < self.connections@.len(),
            self.connections@[k].0 == id,
    {
        let k = choose|k: int| 0 <= k < ids_of(self.connections@).len() && ids_of(self.connections@)[k] == id;
        k
    }

    /// Hands the audio, unchanged, to the connection with this id and gives back its
    /// answer; an id with no open connection is refused.
    pub fn send_audio(&self, id: u64, pcm: Vec<u8>) -> (r: Result<(), String>)
        requires
            self.wf(),
        ensures
            self.ids().contains(id) ==> call_ensures(C::send_audio, (&self.connection_at(id), pcm), r),
            !self.ids().contains(id) ==> r is Err && r->Err_0@ == "Session "@ + decimal(id as nat) + " not found"@,
    {
        match self.position(id) {
            Some(i) => {
                proof {
                    assert(ids_of(self.connections@)[i as int] == id);
                    self.lemma_position_is_connection(id, i as int);
                }
                self.connections[i].1.send_audio(pcm)
            },
            None => {
                let mut message = to_owned("Session ");
                let number = decimal_string(id);
                push_str(&mut message, number.as_str());
                push_str(&mut message, " not found");
                Err(message)
            },
        }
    }

    /// Drops the connection with this id from the registry and gives it back, if open.
    pub fn remove(&mut self, id: u64) -> (r: Option<C>)
        requires
            old(self).wf(),
        ensures
            final(self).wf(),
            r is Some <==> old(self).ids().contains(id),
            !final(self).ids().contains(id),
            forall|other: u64| other != id ==> (final(self).ids().contains(other) <==> old(self).ids().contains(other)),
            final(self).issued() == old(self).issued(),
            r matches Some(c) ==> c == old(self).connection_at(id),
            forall|o: u64| o != id && #[trigger] old(self).ids().contains(o) ==> final(self).connection_at(o)
                == old(self).connection_at(o),
    {
        let ghost old_state = *self;
        match self.position(id) {
            Some(i) => {
                let ghost before = self.connections@;
                proof {
                    self.lemma_position_is_connection(id, i as int);
                }
                let (_, connection) = self.connections.remove(i);
                proof {
                    assert(self.connections@ =~= before.remove(i as int));
                    assert forall|other: u64| other != id implies (ids_of(self.connections@).contains(other) <==> ids_of(before).contains(other)) by {
                        if ids_of(before).contains(other) {
                            let k = choose|k: int| 0 <= k < ids_of(before).len() && ids_of(before)[k] == other;
                            if k < i {
                                assert(ids_of(self.connections@)[k] == other);
                            } else {
                                assert(k != i);
                                assert(ids_of(self.connections@)[k - 1] == other);
                            }
                        }
                        if ids_of(self.connections@).contains(other) {
                            let k = choose|k: int| 0 <= k < ids_of(self.connections@).len() && ids_of(self.connections@)[k] == other;
                            if k < i {
                                assert(ids_of(before)[k] == other);
                            } else {
                                assert(ids_of(before)[k + 1] == other);
                            }
                        }
                    }
                    if ids_of(self.connections@).contains(id) {
                        let k = choose|k: int| 0 <= k < ids_of(self.connections@).len() && ids_of(self.connections@)[k] == id;
                        if k < i {
                            assert(before[k].0 == id && before[i as int].0 == id);
                        } else {
                            assert(before[k + 1].0 == id && before[i as int].0 == id);
                        }
                    }
                    assert(ids_of(before).contains(id)) by {
                        assert(ids_of(before)[i as int] == id);
                    }
                    assert forall|o: u64| o != id && #[trigger] old_state.ids().contains(o) implies self.connection_at(o)
                        == old_state.connection_at(o) by {
                        let k = old_state.lemma_open_index(o);
                        old_state.lemma_position_is_connection(o, k);
                        if k < i {
                            assert(self.connections@[k] == before[k]);
                            self.lemma_position_is_connection(o, k);
                        } else {
                            assert(k != i);
                            assert(self.connections@[k - 1] == before[k]);
                            self.lemma_position_is_connection(o, k - 1);
                        }
                    }
                }
                Some(connection)
            },
            None => None,
        }
    }

    /// Closes the connection with this id, if open. It leaves the registry before it is
    /// told to stop.
    pub fn stop(&mut self, id: u64)
        requires
            old(self).wf(),
        ensures
            old(self).ids().contains(id) ==> call_ensures(C::stop, (&old(self).connection_at(id),), ()),
            forall|o: u64| o != id && #[trigger] old(self).ids().contains(o) ==> final(self).connection_at(o)
                == old(self).connection_at(o),
            final(self).wf(),
            !final(self).ids().contains(id),
            forall|other: u64| other != id ==> (final(self).ids().contains(other) <==> old(self).ids().contains(other)),
    {
        if let Some(connection) = self.remove(id) {
            connection.stop();
        }
    }
}

/// The session a route asks its translator for.
pub enum SessionRequest {
    Qwen(QwenRealtimeConfig),
    Soniox(SonioxRealtimeConfig),
    OpenAi(OpenAiRealtimeConfig),
}

/// The session a route asks for: the route's engine picks the provider, which gets the key
/// stored for it and the settings it reads. An engine nobody serves is refused.
pub fn session_request(
    config: &AppConfig,
    route: &RouteConfig,
    route_id: &str,
    credentials: &CredentialStore,
) -> (r: Result<SessionRequest, String>)
    ensures
        match r {
            Ok(SessionRequest::Qwen(q)) => route.engine@ == "qwen"@ && q.api_key@ == credentials.secret(route.engine@)
                && q.source_language@ == route.source_language@ && q.target_language@ == route.target_language@
                && q.region@ == config.qwen.region@ && q.workspace_id@ == config.qwen.workspace_id@
                && q.model@ == route.model@ && q.route_id@ == route_id@,
            Ok(SessionRequest::Soniox(s)) => route.engine@ == "soniox"@ && s.api_key@ == credentials.secret(route.engine@)
                && s.source_language@ == route.source_language@ && s.target_language@ == route.target_language@,
            Ok(SessionRequest::OpenAi(o)) => route.engine@ == "openai"@ && o.api_key@ == credentials.secret(route.engine@)
                && o.target_language@ == route.target_language@,
            Err(e) => !crate::translators::spec_is_known_engine(route.engine@)
                && e@ == "Unsupported translator: "@ + route.engine@,
        },
        r is Err <==> !crate::translators::spec_is_known_engine(route.engine@),
{
    proof {
        reveal_strlit("qwen");
        reveal_strlit("soniox");
        reveal_strlit("openai");
    }
    let engine = route.engine.as_str();
    let api_key = to_owned(credentials.get(engine));
    let known = crate::translators::is_known_engine(engine);
    if crate::text::str_eq(engine, "qwen") {
        Ok(SessionRequest::Qwen(QwenRealtimeConfig {
            api_key,
            source_language: route.source_language.clone(),
            target_language: route.target_language.clone(),
            region: config.qwen.region.clone(),
            workspace_id: config.qwen.workspace_id.clone(),
            model: route.model.clone(),
            route_id: to_owned(route_id),
        }))
    } else if crate::text::str_eq(engine, "soniox") {
        Ok(SessionRequest::Soniox(SonioxRealtimeConfig {
            api_key,
            source_language: route.source_language.clone(),
            target_language: route.target_language.clone(),
        }))
    } else if crate::text::str_eq(engine, "openai") {
        Ok(SessionRequest::OpenAi(OpenAiRealtimeConfig {
            api_key,
            target_language: route.target_language.clone(),
        }))
    } else {
        proof {
            assert(!known);
        }
        let mut message = to_owned("Unsupported translator: ");
        push_str(&mut message, engine);
        Err(message)
    }
}

/// A connection's id is never handed out again while the registry lives: ids only grow.
pub proof fn law_ids_are_never_reused(before: Seq<u64>, next: u64)
    requires
        forall|i: int| 0 <= i < before.len() ==> before[i] < next,
    ensures
        !before.contains(next),
{
    if before.contains(next) {
        let k = choose|k: int| 0 <= k < before.len() && before[k] == next;
        assert(before[k] < next);
    }
}

} // verus!
