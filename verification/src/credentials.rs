//! API keys per translator, kept in the OS keychain and mirrored in memory.

use crate::text::{blank, is_blank, push_str, str_eq, to_owned};
use crate::translators::{engine_ids, engine_id_views, is_known_engine, spec_is_known_engine, str_views};
use vstd::prelude::*;

verus! {

#[verifier::external_type_specification]
#[verifier::external_body]
pub struct ExKeyringEntry(keyring::Entry);

#[verifier::external_type_specification]
#[verifier::external_body]
pub struct ExKeyringError(keyring::Error);

/// `keyring::Entry::new`: a handle on one keychain item; whether the platform store can
/// make one is up to the machine, so nothing is promised of the outcome.
#[verifier::external_body]
fn keyring_entry(service: &str, account: &str) -> Result<keyring::Entry, keyring::Error> {
    keyring::Entry::new(service, account)
}

/// `keyring::Entry::get_password`: what the keychain holds, if anything.
#[verifier::external_body]
fn keyring_read(entry: &keyring::Entry) -> Result<String, keyring::Error> {
    entry.get_password()
}

/// `keyring::Entry::set_password`.
#[verifier::external_body]
fn keyring_write(entry: &keyring::Entry, secret: &str) -> Result<(), keyring::Error> {
    entry.set_password(secret)
}

/// `keyring::Entry::delete_credential`.
#[verifier::external_body]
fn keyring_delete(entry: &keyring::Entry) -> Result<(), keyring::Error> {
    entry.delete_credential()
}

/// Whether a keychain error is `keyring::Error::NoEntry`.
#[verifier::external_body]
fn is_no_entry(error: &keyring::Error) -> bool {
    matches!(error, keyring::Error::NoEntry)
}

/// The `Display` text of a keychain error.
#[verifier::external_body]
fn keyring_error_text(error: &keyring::Error) -> String {
    format!("{error}")
}

pub open spec fn spec_account(provider: Seq<char>) -> Seq<char> {
    provider + "-api-key"@
}

/// The keychain account of a provider. Derived rather than listed, so a new provider needs
/// no entry here; changing it would orphan every key users have saved.
pub fn account(provider: &str) -> (r: String)
    ensures
        r@ == spec_account(provider@),
{
    let mut out = to_owned(provider);
    push_str(&mut out, "-api-key");
    out
}

pub open spec fn spec_error_text(detail: Seq<char>) -> Seq<char> {
    "Credential store error: "@ + detail
}

pub fn error_text(detail: &str) -> (r: String)
    ensures
        r@ == spec_error_text(detail@),
{
    let mut out = to_owned("Credential store error: ");
    push_str(&mut out, detail);
    out
}

/// How the keychain answered a write or a removal, as plain values: done, or failed, with
/// whether the item was missing and the text of the error.
pub enum KeychainOutcome {
    Done,
    Failed { missing: bool, text: String },
}

/// What an answer makes of a write or a removal: done is done, an item already gone counts
/// as removed, and any other failure is reported as a credential-store error.
pub open spec fn spec_settle(removing: bool, outcome: KeychainOutcome) -> Result<(), Seq<char>> {
    match outcome {
        KeychainOutcome::Done => Ok(()),
        KeychainOutcome::Failed { missing, text } => if removing && missing {
            Ok(())
        } else {
            Err(spec_error_text(text@))
        },
    }
}

pub open spec fn result_text(r: Result<(), String>) -> Result<(), Seq<char>> {
    match r {
        Ok(()) => Ok(()),
        Err(e) => Err(e@),
    }
}

pub fn settle(removing: bool, outcome: KeychainOutcome) -> (r: Result<(), String>)
    ensures
        result_text(r) == spec_settle(removing, outcome),
{
    match outcome {
        KeychainOutcome::Done => Ok(()),
        KeychainOutcome::Failed { missing, text } => if removing && missing {
            Ok(())
        } else {
            Err(error_text(text.as_str()))
        },
    }
}

/// The outcome a keychain error stands for: whether it reports a missing item, and its text.
pub closed spec fn failure_of(error: keyring::Error, outcome: KeychainOutcome) -> bool {
    outcome matches KeychainOutcome::Failed { missing, text } && call_ensures(
        is_no_entry,
        (&error,),
        missing,
    ) && call_ensures(keyring_error_text, (&error,), text)
}

/// The outcome of failing to make an entry for an item: never a missing item, and the
/// error's text.
pub closed spec fn entry_failure_of(error: keyring::Error, outcome: KeychainOutcome) -> bool {
    outcome matches KeychainOutcome::Failed { missing, text } && !missing && call_ensures(
        keyring_error_text,
        (&error,),
        text,
    )
}

/// The keychain's answer to writing `secret` through `entry`, or to removing the entry's
/// item when `secret` is empty.
pub closed spec fn wrote(entry: keyring::Entry, secret: &str, answer: Result<(), keyring::Error>) -> bool {
    if secret@.len() == 0 {
        call_ensures(keyring_delete, (&entry,), answer)
    } else {
        call_ensures(keyring_write, (&entry, secret), answer)
    }
}

/// `outcome` is how the keychain of `service` answered: an entry for the item of
/// `account` is made, then `secret` is written to it, or the item removed when `secret`
/// is empty.
pub closed spec fn keychain_answered(service: &str, account: &str, secret: &str, outcome: KeychainOutcome) -> bool {
    exists|entry: Result<keyring::Entry, keyring::Error>|
        #[trigger] call_ensures(keyring_entry, (service, account), entry) && match entry {
            Err(e) => entry_failure_of(e, outcome),
            Ok(made) => exists|answer: Result<(), keyring::Error>|
                #[trigger] wrote(made, secret, answer) && match answer {
                    Ok(()) => outcome is Done,
                    Err(e) => failure_of(e, outcome),
                },
        }
}

/// The same, for the service and account given by their text.
pub closed spec fn keychain_answered_for(service: Seq<char>, account: Seq<char>, secret: &str, outcome: KeychainOutcome) -> bool {
    exists|s: &str, a: &str| s@ == service && a@ == account && #[trigger] keychain_answered(s, a, secret, outcome)
}

/// `secret` is what the keychain of `service` gave back for the item of `account`: an
/// entry for the item is made and read; nothing when either step fails.
pub closed spec fn keychain_read(service: &str, account: &str, secret: Seq<char>) -> bool {
    exists|entry: Result<keyring::Entry, keyring::Error>|
        #[trigger] call_ensures(keyring_entry, (service, account), entry) && match entry {
            Err(_) => secret.len() == 0,
            Ok(made) => exists|answer: Result<String, keyring::Error>|
                #[trigger] call_ensures(keyring_read, (&made,), answer) && secret == match answer {
                    Ok(s) => s@,
                    Err(_) => Seq::<char>::empty(),
                },
        }
}

/// The same, for the service and account given by their text.
pub closed spec fn keychain_read_for(service: Seq<char>, account: Seq<char>, secret: Seq<char>) -> bool {
    exists|s: &str, a: &str| s@ == service && a@ == account && #[trigger] keychain_read(s, a, secret)
}

fn failure(error: &keyring::Error) -> (r: KeychainOutcome)
    ensures
        failure_of(*error, r),
{
    let missing = is_no_entry(error);
    let text = keyring_error_text(error);
    KeychainOutcome::Failed { missing, text }
}

/// The secret stored for an account, or nothing when the keychain has none or fails.
fn read_secret(service: &str, account: &str) -> (r: String)
    ensures
        keychain_read(service, account, r@),
{
    let made = keyring_entry(service, account);
    let ghost made_value = made;
    match made {
        Ok(entry) => {
            let answer = keyring_read(&entry);
            let ghost answer_value = answer;
            let r = match answer {
                Ok(secret) => secret,
                Err(_) => String::new(),
            };
            assert(call_ensures(keyring_read, (&entry,), answer_value));
            assert(call_ensures(keyring_entry, (service, account), made_value));
            r
        },
        Err(_) => {
            assert(call_ensures(keyring_entry, (service, account), made_value));
            String::new()
        },
    }
}

/// Asks the keychain to store a secret for an item, or to remove the item when the secret
/// is empty, and gives its answer.
fn keychain_write(service: &str, account: &str, secret: &str) -> (r: KeychainOutcome)
    ensures
        keychain_answered(service, account, secret, r),
{
    let made = keyring_entry(service, account);
    let ghost made_value = made;
    proof {
        assert(call_ensures(keyring_entry, (service, account), made_value));
    }
    match made {
        Ok(entry) => {
            let answer = if secret.is_empty() {
                keyring_delete(&entry)
            } else {
                keyring_write(&entry, secret)
            };
            let ghost answer_value = answer;
            proof {
                assert(wrote(entry, secret, answer_value));
            }
            match answer {
                Ok(()) => KeychainOutcome::Done,
                Err(error) => failure(&error),
            }
        },
        Err(error) => {
            let text = keyring_error_text(&error);
            let r = KeychainOutcome::Failed { missing: false, text };
            proof {
                assert(entry_failure_of(error, r));
            }
            r
        },
    }
}

/// The secret the first entry for `key` holds, if any.
pub open spec fn lookup(entries: Seq<(Seq<char>, Seq<char>)>, key: Seq<char>) -> Option<Seq<char>>
    decreases entries.len(),
{
    if entries.len() == 0 {
        None
    } else if entries[0].0 == key {
        Some(entries[0].1)
    } else {
        lookup(entries.drop_first(), key)
    }
}

proof fn lemma_lookup_first(entries: Seq<(Seq<char>, Seq<char>)>, key: Seq<char>, i: int)
    requires
        0 <= i < entries.len(),
        entries[i].0 == key,
        forall|j: int| 0 <= j < i ==> entries[j].0 != key,
    ensures
        lookup(entries, key) == Some(entries[i].1),
    decreases i,
{
    if i > 0 {
        lemma_lookup_first(entries.drop_first(), key, i - 1);
    }
}

proof fn lemma_lookup_absent(entries: Seq<(Seq<char>, Seq<char>)>, key: Seq<char>)
    requires
        forall|j: int| 0 <= j < entries.len() ==> entries[j].0 != key,
    ensures
        lookup(entries, key) is None,
    decreases entries.len(),
{
    if entries.len() > 0 {
        lemma_lookup_absent(entries.drop_first(), key);
    }
}

/// Changing the secret at an index leaves every lookup but that key's alone.
proof fn lemma_lookup_update(
    entries: Seq<(Seq<char>, Seq<char>)>,
    i: int,
    secret: Seq<char>,
    key: Seq<char>,
)
    requires
        0 <= i < entries.len(),
        forall|j: int| 0 <= j < i ==> entries[j].0 != entries[i].0,
    ensures
        key == entries[i].0 ==> lookup(entries.update(i, (entries[i].0, secret)), key) == Some(
            secret,
        ),
        key != entries[i].0 ==> lookup(entries.update(i, (entries[i].0, secret)), key) == lookup(
            entries,
            key,
        ),
    decreases i,
{
    let updated = entries.update(i, (entries[i].0, secret));
    if i == 0 {
        assert(updated.drop_first() =~= entries.drop_first());
    } else {
        lemma_lookup_update(entries.drop_first(), i - 1, secret, key);
        assert(updated.drop_first() =~= entries.drop_first().update(
            i - 1,
            (entries[i].0, secret),
        ));
    }
}

proof fn lemma_lookup_push(
    entries: Seq<(Seq<char>, Seq<char>)>,
    entry: (Seq<char>, Seq<char>),
    key: Seq<char>,
)
    requires
        forall|j: int| 0 <= j < entries.len() ==> entries[j].0 != entry.0,
    ensures
        key == entry.0 ==> lookup(entries.push(entry), key) == Some(entry.1),
        key != entry.0 ==> lookup(entries.push(entry), key) == lookup(entries, key),
    decreases entries.len(),
{
    if entries.len() > 0 {
        lemma_lookup_push(entries.drop_first(), entry, key);
        assert(entries.push(entry).drop_first() =~= entries.drop_first().push(entry));
    } else {
        assert(entries.push(entry).drop_first() =~= entries);
    }
}

pub open spec fn entry_views(secrets: Seq<(String, String)>) -> Seq<(Seq<char>, Seq<char>)> {
    secrets.map_values(|e: (String, String)| (e.0@, e.1@))
}

pub struct CredentialStore {
    service: String,
    secrets: Vec<(String, String)>,
}

impl CredentialStore {
    pub closed spec fn service_view(&self) -> Seq<char> {
        self.service@
    }

    pub closed spec fn entries(&self) -> Seq<(Seq<char>, Seq<char>)> {
        entry_views(self.secrets@)
    }

    /// The secret held for a provider; nothing when there is none.
    pub open spec fn secret(&self, provider: Seq<char>) -> Seq<char> {
        match lookup(self.entries(), provider) {
            Some(s) => s,
            None => Seq::empty(),
        }
    }

    pub open spec fn holds(&self, provider: Seq<char>) -> bool {
        !is_blank(self.secret(provider))
    }

    /// A store with no service and no secrets.
    pub fn new() -> (r: Self)
        ensures
            r.service_view() == Seq::<char>::empty(),
            forall|p: Seq<char>| #[trigger] lookup(r.entries(), p) is None,
    {
        CredentialStore { service: String::new(), secrets: Vec::new() }
    }

    /// Reads every provider's secret from the keychain of `service`. What the keychain
    /// answers is up to the machine; the store holds one entry per provider, in the
    /// catalogue's order.
    pub fn load(service: String) -> (r: Self)
        ensures
            r.service_view() == service@,
            r.entries().len() == engine_id_views().len(),
            forall|i: int| 0 <= i < r.entries().len() ==> #[trigger] r.entries()[i].0
                == engine_id_views()[i],
            forall|i: int| 0 <= i < r.entries().len() ==> keychain_read_for(
                service@,
                spec_account(engine_id_views()[i]),
                #[trigger] r.entries()[i].1,
            ),
    {
        let providers = engine_ids();
        let mut secrets: Vec<(String, String)> = Vec::new();
        let mut i: usize = 0;
        while i < providers.len()
            invariant
                0 <= i <= providers@.len(),
                str_views(providers@) == engine_id_views(),
                secrets@.len() == i,
                forall|j: int| 0 <= j < i ==> #[trigger] secrets@[j].0@ == engine_id_views()[j],
                forall|j: int| 0 <= j < i ==> keychain_read_for(
                    service@,
                    spec_account(engine_id_views()[j]),
                    #[trigger] secrets@[j].1@,
                ),
            decreases providers@.len() - i,
        {
            let provider = providers[i];
            let item = account(provider);
            let secret = read_secret(service.as_str(), item.as_str());
            proof {
                assert(str_views(providers@)[i as int] == provider@);
                assert(keychain_read_for(service@, spec_account(engine_id_views()[i as int]), secret@));
            }
            secrets.push((to_owned(provider), secret));
            i = i + 1;
        }
        let r = CredentialStore { service, secrets };
        proof {
            assert forall|i: int| 0 <= i < r.entries().len() implies keychain_read_for(
                r.service@,
                spec_account(engine_id_views()[i]),
                #[trigger] r.entries()[i].1,
            ) by {
                assert(r.entries()[i].1 == r.secrets@[i].1@);
            }
        }
        r
    }

    fn position(&self, provider: &str) -> (r: Option<usize>)
        ensures
            match r {
                Some(i) => i < self.entries().len() && self.entries()[i as int].0 == provider@
                    && forall|j: int| 0 <= j < i ==> #[trigger] self.entries()[j].0 != provider@,
                None => forall|j: int| 0 <= j < self.entries().len() ==> #[trigger] self.entries()[j].0
                    != provider@,
            },
    {
        let mut i: usize = 0;
        while i < self.secrets.len()
            invariant
                0 <= i <= self.secrets@.len(),
                forall|j: int| 0 <= j < i ==> #[trigger] self.entries()[j].0 != provider@,
            decreases self.secrets@.len() - i,
        {
            if str_eq(self.secrets[i].0.as_str(), provider) {
                return Some(i);
            }
            i = i + 1;
        }
        None
    }

    /// Holds `secret` for `provider` in memory only.
    fn remember(&mut self, provider: &str, secret: &str)
        ensures
            final(self).service_view() == old(self).service_view(),
            lookup(final(self).entries(), provider@) == Some(secret@),
            forall|p: Seq<char>| p != provider@ ==> #[trigger] lookup(final(self).entries(), p)
                == lookup(old(self).entries(), p),
    {
        match self.position(provider) {
            Some(i) => {
                let ghost before = self.entries();
                let key = self.secrets[i].0.clone();
                self.secrets.set(i, (key, to_owned(secret)));
                proof {
                    assert(self.entries() =~= before.update(i as int, (before[i as int].0, secret@)));
                    assert forall|p: Seq<char>| true implies (p != provider@ ==> #[trigger] lookup(
                        self.entries(),
                        p,
                    ) == lookup(before, p)) && (p == provider@ ==> lookup(self.entries(), p)
                        == Some(secret@)) by {
                        lemma_lookup_update(before, i as int, secret@, p);
                    }
                }
            },
            None => {
                let ghost before = self.entries();
                self.secrets.push((to_owned(provider), to_owned(secret)));
                proof {
                    assert(self.entries() =~= before.push((provider@, secret@)));
                    assert forall|p: Seq<char>| true implies (p != provider@ ==> #[trigger] lookup(
                        self.entries(),
                        p,
                    ) == lookup(before, p)) && (p == provider@ ==> lookup(self.entries(), p)
                        == Some(secret@)) by {
                        lemma_lookup_push(before, (provider@, secret@), p);
                    }
                }
            },
        }
    }

    /// Stores a provider's secret in the keychain and, once it is there, in memory. An
    /// unknown provider is refused before the keychain is touched; a keychain failure
    /// leaves the store as it was.
    pub fn set(&mut self, provider: &str, secret: &str) -> (r: Result<(), String>)
        ensures
            !spec_is_known_engine(provider@) ==> r == Err::<(), String>(r->Err_0) && r->Err_0@
                == "Unsupported credential provider: "@ + provider@,
            !spec_is_known_engine(provider@) || r is Err ==> lookup(final(self).entries(), provider@)
                == lookup(old(self).entries(), provider@),
            r is Ok ==> lookup(final(self).entries(), provider@) == Some(secret@),
            spec_is_known_engine(provider@) ==> exists|outcome: KeychainOutcome|
                #[trigger] keychain_answered_for(old(self).service_view(), spec_account(provider@), secret, outcome)
                    && result_text(r) == spec_settle(secret@.len() == 0, outcome),
            forall|p: Seq<char>| p != provider@ ==> #[trigger] lookup(final(self).entries(), p)
                == lookup(old(self).entries(), p),
            final(self).service_view() == old(self).service_view(),
    {
        if !is_known_engine(provider) {
            let mut message = to_owned("Unsupported credential provider: ");
            push_str(&mut message, provider);
            return Err(message);
        }
        let item = account(provider);
        let outcome = keychain_write(self.service.as_str(), item.as_str(), secret);
        let ghost answered = outcome;
        proof {
            assert(keychain_answered_for(self.service@, spec_account(provider@), secret, answered));
        }
        let written = settle(secret.is_empty(), outcome);
        match written {
            Ok(()) => {
                self.remember(provider, secret);
                Ok(())
            },
            Err(error) => Err(error),
        }
    }

    /// Whether no secret is held at all.
    pub fn is_empty(&self) -> (r: bool)
        ensures
            r == (self.entries().len() == 0),
    {
        self.secrets.len() == 0
    }

    /// A copy of the store: the same service and the same entries, in the same order.
    pub fn duplicate(&self) -> (r: Self)
        ensures
            r.service_view() == self.service_view(),
            r.entries() == self.entries(),
    {
        let mut secrets: Vec<(String, String)> = Vec::new();
        let mut i: usize = 0;
        while i < self.secrets.len()
            invariant
                0 <= i <= self.secrets@.len(),
                secrets@.len() == i,
                forall|j: int|
                    0 <= j < i ==> #[trigger] secrets@[j].0@ == self.secrets@[j].0@
                        && secrets@[j].1@ == self.secrets@[j].1@,
            decreases self.secrets@.len() - i,
        {
            let provider = self.secrets[i].0.clone();
            let secret = self.secrets[i].1.clone();
            secrets.push((provider, secret));
            i += 1;
        }
        let r = CredentialStore { service: self.service.clone(), secrets };
        assert(r.entries() =~= self.entries());
        r
    }

    /// Seeds a secret without touching the OS keychain.
    pub fn set_for_test(&mut self, provider: &str, secret: &str)
        ensures
            lookup(final(self).entries(), provider@) == Some(secret@),
            forall|p: Seq<char>| p != provider@ ==> #[trigger] lookup(final(self).entries(), p)
                == lookup(old(self).entries(), p),
    {
        self.remember(provider, secret);
    }

    /// The secret for a provider, or "" when it has none.
    pub fn get(&self, provider: &str) -> (r: &str)
        ensures
            r@ == self.secret(provider@),
    {
        match self.position(provider) {
            Some(i) => {
                proof {
                    lemma_lookup_first(self.entries(), provider@, i as int);
                }
                self.secrets[i].1.as_str()
            },
            None => {
                proof {
                    lemma_lookup_absent(self.entries(), provider@);
                    reveal_strlit("");
                }
                ""
            },
        }
    }

    /// Whether a provider holds a usable key: anything but white space.
    pub fn has(&self, provider: &str) -> (r: bool)
        ensures
            r == self.holds(provider@),
    {
        !blank(self.get(provider))
    }

    /// Which translators are usable right now, by provider id in catalogue order.
    pub fn status(&self) -> (r: Vec<(String, bool)>)
        ensures
            status_views(r@) == engine_id_views().map_values(|p: Seq<char>| (p, self.holds(p))),
    {
        let providers = engine_ids();
        let mut out: Vec<(String, bool)> = Vec::new();
        let mut i: usize = 0;
        while i < providers.len()
            invariant
                0 <= i <= providers@.len(),
                str_views(providers@) == engine_id_views(),
                status_views(out@) == engine_id_views().take(i as int).map_values(
                    |p: Seq<char>| (p, self.holds(p)),
                ),
            decreases providers@.len() - i,
        {
            let provider = providers[i];
            proof {
                assert(str_views(providers@)[i as int] == provider@);
            }
            let name = to_owned(provider);
            let usable = self.has(provider);
            let ghost prior = out@;
            out.push((name, usable));
            proof {
                assert(status_views(out@) =~= status_views(prior).push((provider@, usable)));
                assert(engine_id_views().take(i + 1).map_values(|p: Seq<char>| (p, self.holds(p)))
                    =~= engine_id_views().take(i as int).map_values(
                    |p: Seq<char>| (p, self.holds(p)),
                ).push((provider@, self.holds(provider@))));
            }
            i = i + 1;
        }
        proof {
            assert(engine_id_views().take(3) =~= engine_id_views());
        }
        out
    }
}

pub open spec fn status_views(s: Seq<(String, bool)>) -> Seq<(Seq<char>, bool)> {
    s.map_values(|e: (String, bool)| (e.0@, e.1))
}

impl Default for CredentialStore {
    fn default() -> (r: Self)
        ensures
            r.service_view() == Seq::<char>::empty(),
            forall|p: Seq<char>| #[trigger] lookup(r.entries(), p) is None,
    {
        CredentialStore::new()
    }
}

/// A secret written is a secret read: after a successful `set`, `get` answers it, and
/// nothing else changes.
pub proof fn law_set_then_get(
    before: CredentialStore,
    after: CredentialStore,
    provider: Seq<char>,
    secret: Seq<char>,
    other: Seq<char>,
)
    requires
        lookup(after.entries(), provider) == Some(secret),
        forall|p: Seq<char>| p != provider ==> #[trigger] lookup(after.entries(), p) == lookup(
            before.entries(),
            p,
        ),
        other != provider,
    ensures
        after.secret(provider) == secret,
        after.secret(other) == before.secret(other),
        after.holds(provider) == !is_blank(secret),
{
    assert(lookup(after.entries(), other) == lookup(before.entries(), other));
}

} // verus!
