//! The master-password lock. Once a master password is configured, every
//! workspace command is refused until this process has been unlocked with
//! it; with no password configured, nothing is locked.

use vstd::prelude::*;
use argon2::password_hash::{PasswordHasher, PasswordVerifier};
use vstd::utf8::encode_utf8;
use crate::json::{json_string_member, json_pretty_pair, json_pretty_pair_text, json_string_member_of};
use crate::text::{cat, owned};
use crate::runtime::HostOs;

verus! {

/// What `argon2` makes of a password and a B64 salt: the PHC string of the
/// Argon2id hash with default parameters, or `None` when it refuses.
pub uninterp spec fn argon2_phc_hash(password: Seq<u8>, salt: Seq<char>) -> Option<Seq<char>>;

/// What `argon2` says of a password against a PHC string: `None` when the
/// string does not parse, else whether the password matches.
pub uninterp spec fn argon2_phc_verify(password: Seq<u8>, phc: Seq<char>) -> Option<bool>;

/// The character of a 6-bit value in the standard Base64 alphabet.
pub open spec fn b64_char(v: int) -> char {
    if v < 26 {
        (65 + v) as char
    } else if v < 52 {
        (97 + v - 26) as char
    } else if v < 62 {
        (48 + v - 52) as char
    } else if v == 62 {
        '+'
    } else {
        '/'
    }
}

/// Bytes in standard Base64 without padding ("B64"): each group of three
/// bytes as four characters, a final two bytes as three, a final byte as
/// two.
pub open spec fn b64_of(b: Seq<u8>) -> Seq<char>
    decreases b.len(),
{
    if b.len() == 0 {
        Seq::empty()
    } else {
        let x = b[0] as int;
        let y = if b.len() > 1 { b[1] as int } else { 0 };
        let z = if b.len() > 2 { b[2] as int } else { 0 };
        if b.len() == 1 {
            seq![b64_char(x / 4), b64_char((x % 4) * 16)]
        } else if b.len() == 2 {
            seq![b64_char(x / 4), b64_char((x % 4) * 16 + y / 16), b64_char((y % 16) * 4)]
        } else {
            seq![b64_char(x / 4), b64_char((x % 4) * 16 + y / 16), b64_char((y % 16) * 4 + z / 64), b64_char(z % 64)]
                + b64_of(b.skip(3))
        }
    }
}

/// A salt as `SaltString::generate` makes it: 16 bytes in B64.
pub open spec fn generated_salt(salt: Seq<char>) -> bool {
    exists|bytes: Seq<u8>| bytes.len() == 16 && #[trigger] b64_of(bytes) == salt
}

/// A fresh random salt: `SaltString::generate` with the operating system's
/// random source fills 16 bytes and encodes them in B64. Which bytes is not
/// stated.
#[verifier::external_body]
fn generate_salt() -> (salt: String)
    ensures
        generated_salt(salt@),
{
    argon2::password_hash::SaltString::generate(&mut rand_core::OsRng).as_str().to_string()
}

/// `Argon2::default().hash_password(password, salt)` as a PHC string. A hash
/// it returns verifies the same password (`PasswordVerifier::verify_password`
/// recomputes it from the parameters and salt the string records). With a
/// salt of 16 bytes in B64 it refuses only a password over `0xFFFFFFFF`
/// bytes. The error text is the `password_hash` error's `Display`, which is
/// not stated.
#[verifier::external_body]
fn argon2_hash(password: &[u8], salt: &str) -> (r: Result<String, String>)
    ensures
        r is Ok <==> argon2_phc_hash(password@, salt@) is Some,
        r matches Ok(h) ==> argon2_phc_hash(password@, salt@) == Some(h@)
            && argon2_phc_verify(password@, h@) == Some(true),
        generated_salt(salt@) && password@.len() <= u32::MAX ==> r is Ok,
{
    let salt = argon2::password_hash::SaltString::from_b64(salt).map_err(|e| e.to_string())?;
    argon2::Argon2::default().hash_password(password, &salt).map(|h| h.to_string()).map_err(
        |e| e.to_string(),
    )
}

/// `PasswordHash::new(phc)` then `Argon2::default().verify_password`. The
/// error text is the parse error's `Display`, which is not stated.
#[verifier::external_body]
fn argon2_verify(password: &[u8], phc: &str) -> (r: Result<bool, String>)
    ensures
        r is Err <==> argon2_phc_verify(password@, phc@) is None,
        r matches Ok(b) ==> argon2_phc_verify(password@, phc@) == Some(b),
{
    let parsed = argon2::password_hash::PasswordHash::new(phc).map_err(|e| e.to_string())?;
    Ok(argon2::Argon2::default().verify_password(password, &parsed).is_ok())
}

/// Whether this process has been unlocked with the master password.
pub struct WorkspaceLock {
    unlocked: bool,
}

impl View for WorkspaceLock {
    type V = bool;

    closed spec fn view(&self) -> bool {
        self.unlocked
    }
}

impl WorkspaceLock {
    /// A new process starts locked.
    pub fn new() -> (l: WorkspaceLock)
        ensures
            !l@,
    {
        WorkspaceLock { unlocked: false }
    }

    /// Whether this process has been unlocked.
    pub fn is_unlocked(&self) -> (b: bool)
        ensures
            b == self@,
    {
        self.unlocked
    }
}

/// Whether workspace commands may run: no password configured, or unlocked.
pub open spec fn gate_open(configured: bool, unlocked: bool) -> bool {
    !configured || unlocked
}

/// The message of a refused command.
pub open spec fn locked_text() -> Seq<char> {
    "KDev is locked. Unlock with your master password first."@
}

/// The message of a too-short password.
pub open spec fn short_password_text() -> Seq<char> {
    "Master password must contain at least 10 characters."@
}

/// The fewest characters a master password may have.
pub const MIN_PASSWORD_CHARS: usize = 10;

/// The security configuration file exists (`Ok(true)`), does not
/// (`Ok(false)`), or its location could not be found (`Err`).
pub type ConfigPresence = Result<bool, String>;

/// Every workspace command calls this first: `Ok` when no master password is
/// configured or this process has been unlocked; the location error when
/// the configuration cannot be located.
pub fn require_unlocked(config: &ConfigPresence, lock: &WorkspaceLock) -> (r: Result<(), String>)
    ensures
        r is Ok <==> (config matches Ok(c) && gate_open(*c, lock@)),
        config matches Err(e) ==> r == Err::<(), String>(*e),
        (config matches Ok(c) && !gate_open(*c, lock@)) ==> (r matches Err(m) && m@ == locked_text()),
{
    match config {
        Err(e) => Err(e.clone()),
        Ok(c) => {
            if !*c || lock.unlocked {
                Ok(())
            } else {
                Err(owned("KDev is locked. Unlock with your master password first."))
            }
        },
    }
}

/// Whether a master password is configured, and where its file lives.
pub struct SecurityState {
    pub configured: bool,
    pub config_path: String,
}

/// Where the security configuration lives: `<root>/security/security.json`
/// (inside the data root, so it travels with a portable drive).
pub fn config_path(os: HostOs, root: &Result<String, String>) -> (r: Result<String, String>)
    ensures
        root matches Ok(b) ==> (r matches Ok(p) && p@ == crate::paths::joined(
            os,
            crate::paths::joined(os, b@, "security"@),
            "security.json"@,
        )),
        root is Err ==> r == *root,
{
    match root {
        Ok(b) => {
            let s = crate::paths::join(os, b.as_str(), "security");
            Ok(crate::paths::join(os, s.as_str(), "security.json"))
        },
        Err(e) => Err(e.clone()),
    }
}

/// The security state for a configuration path (or the error locating it)
/// and whether that file exists.
pub fn security_state(config_path: Result<String, String>, exists: bool) -> (r: Result<SecurityState, String>)
    ensures
        config_path matches Ok(p) ==> r matches Ok(s) && s.configured == exists && s.config_path@ == p@,
        config_path matches Err(e) ==> r matches Err(f) && f@ == e@,
{
    match config_path {
        Ok(p) => Ok(SecurityState { configured: exists, config_path: p }),
        Err(e) => Err(e),
    }
}

/// The UTF-8 bytes of a password.
pub open spec fn password_bytes(password: Seq<char>) -> Seq<u8> {
    encode_utf8(password)
}

/// The security configuration file for the password hash `hash`: a JSON
/// object whose `version` member is the number 1 and whose `password_hash`
/// member is `hash`.
pub open spec fn security_document(hash: Seq<char>) -> Seq<char> {
    json_pretty_pair_text("version"@, 1, "password_hash"@, hash)
}

/// `doc` is a security configuration written for `password`: the document
/// `security_document(h)` (version 1), whose `password_hash` member `h` is
/// the Argon2 hash of the password with some salt and verifies that
/// password, and whose `version` member is not a string.
pub open spec fn password_document(doc: Seq<char>, password: Seq<char>) -> bool {
    exists|salt: Seq<char>, h: Seq<char>|
        #![trigger argon2_phc_hash(password_bytes(password), salt), argon2_phc_verify(password_bytes(password), h)]
        argon2_phc_hash(password_bytes(password), salt) == Some(h) && doc == security_document(h)
            && json_string_member_of(doc, "password_hash"@) == Some(Some(h))
            && json_string_member_of(doc, "version"@) == Some(None::<Seq<char>>)
            && argon2_phc_verify(password_bytes(password), h) == Some(true)
}

/// Setting a master password, up to writing the configuration: refused while
/// locked or when the password has fewer than ten characters; otherwise the
/// password is hashed with a fresh random salt and the JSON document to
/// write is returned. Its `password_hash` member verifies this password.
pub fn set_master_password(config: &ConfigPresence, lock: &WorkspaceLock, password: &str) -> (r: Result<String, String>)
    ensures
        config matches Err(e) ==> r == Err::<String, String>(*e),
        (config matches Ok(c) && !gate_open(*c, lock@)) ==> (r matches Err(m) && m@ == locked_text()),
        ((config matches Ok(c) && gate_open(*c, lock@)) && password@.len() < 10) ==> (r matches Err(m)
            && m@ == short_password_text()),
        r matches Ok(doc) ==> {
            &&& config matches Ok(c) && gate_open(*c, lock@)
            &&& password@.len() >= 10
            &&& password_document(doc@, password@)
        },
        (config matches Ok(c) && gate_open(*c, lock@)) && password@.len() >= 10 && password_bytes(password@).len()
            <= u32::MAX ==> r is Ok,
{
    require_unlocked(config, lock)?;
    let n = crate::text::chars_of(password).len();
    if n < MIN_PASSWORD_CHARS {
        return Err(owned("Master password must contain at least 10 characters."));
    }
    let salt = generate_salt();
    let bytes = password.as_bytes();
    let hash = argon2_hash(bytes, salt.as_str())?;
    proof {
        reveal_strlit("version");
        reveal_strlit("password_hash");
        assert("version"@ != "password_hash"@) by {
            assert("version"@.len() != "password_hash"@.len());
        }
    }
    let doc = json_pretty_pair("version", 1, "password_hash", hash.as_str());
    assert(argon2_phc_hash(password_bytes(password@), salt@) == Some(hash@)
        && argon2_phc_verify(password_bytes(password@), hash@) == Some(true));
    Ok(doc)
}

/// Settles a master-password change once the configuration was written (or
/// failed to be): a written password unlocks this process, a failed write
/// changes nothing and is reported.
pub fn master_password_saved(lock: &mut WorkspaceLock, written: Result<(), String>) -> (r: Result<(), String>)
    ensures
        r == written,
        final(lock)@ == (old(lock)@ || written is Ok),
{
    if written.is_ok() {
        lock.unlocked = true;
    }
    written
}

/// Re-locks the workspace for the rest of this process.
pub fn lock_workspace(lock: &mut WorkspaceLock) -> (r: Result<(), String>)
    ensures
        r is Ok,
        !final(lock)@,
{
    lock.unlocked = false;
    Ok(())
}

/// The security configuration as read for verification: its location could
/// not be found, it could not be read, or its text.
pub enum ConfigRead {
    NoPath(String),
    Unreadable(String),
    Text(String),
}

/// What verifying `password` against the configuration text gives: `None`
/// when the text or its hash cannot be read, else whether it matches.
pub open spec fn verification(text: Seq<char>, password: Seq<char>) -> Option<bool> {
    match json_string_member_of(text, "password_hash"@) {
        Some(Some(h)) => argon2_phc_verify(password_bytes(password), h),
        _ => None,
    }
}

/// The `password_hash` member read from the configuration, or why it could
/// not be: the JSON parse error, or its absence.
pub fn password_hash_field(lookup: Result<Option<String>, String>) -> (r: Result<String, String>)
    ensures
        lookup matches Ok(Some(h)) ==> r == Ok::<String, String>(h),
        lookup matches Ok(None) ==> (r matches Err(m) && m@ == "invalid security configuration"@),
        lookup matches Err(e) ==> (r matches Err(m) && m@ == "invalid security configuration: "@ + e@),
{
    match lookup {
        Ok(Some(h)) => Ok(h),
        Ok(None) => Err(owned("invalid security configuration")),
        Err(e) => Err(cat("invalid security configuration: ", e.as_str())),
    }
}

/// Records the outcome of a verification: a matching password unlocks this
/// process; anything else leaves the lock as it was.
pub fn record_verification(lock: &mut WorkspaceLock, outcome: Result<bool, String>) -> (r: Result<bool, String>)
    ensures
        r == outcome,
        final(lock)@ == (old(lock)@ || outcome == Ok::<bool, String>(true)),
{
    if let Ok(true) = outcome {
        lock.unlocked = true;
    }
    outcome
}

/// Checks `password` against the configured master password and unlocks
/// this process when it matches.
pub fn verify_master_password(lock: &mut WorkspaceLock, config: ConfigRead, password: &str) -> (r: Result<bool, String>)
    ensures
        final(lock)@ == (old(lock)@ || r == Ok::<bool, String>(true)),
        config matches ConfigRead::NoPath(e) ==> r == Err::<bool, String>(e),
        config matches ConfigRead::Unreadable(e) ==> (r matches Err(m) && m@ == "security configuration unavailable: "@ + e@),
        config matches ConfigRead::Text(t) ==> {
            &&& (r is Ok <==> verification(t@, password@) is Some)
            &&& (r matches Ok(b) ==> verification(t@, password@) == Some(b))
            &&& (json_string_member_of(t@, "password_hash"@) matches Some(None) ==> (r matches Err(m)
                && m@ == "invalid security configuration"@))
            &&& (json_string_member_of(t@, "password_hash"@) is None ==> (r matches Err(m) && has_prefix_text(
                m@,
                "invalid security configuration: "@,
            )))
        },
{
    let text = match config {
        ConfigRead::NoPath(e) => return Err(e),
        ConfigRead::Unreadable(e) => return Err(cat("security configuration unavailable: ", e.as_str())),
        ConfigRead::Text(t) => t,
    };
    let lookup = json_string_member(text.as_str(), "password_hash");
    let hash = match password_hash_field(lookup) {
        Ok(h) => h,
        Err(m) => {
            proof {
                let p = "invalid security configuration: "@;
                if json_string_member_of(text@, "password_hash"@) is None {
                    assert(m@.take(p.len() as int) =~= p);
                }
            }
            return Err(m);
        },
    };
    let outcome = argon2_verify(password.as_bytes(), hash.as_str());
    record_verification(lock, outcome)
}

/// `m` begins with `p`.
pub open spec fn has_prefix_text(m: Seq<char>, p: Seq<char>) -> bool {
    p.len() <= m.len() && m.take(p.len() as int) == p
}

/// Once a master password is configured, a locked process refuses every
/// workspace command; with none configured, nothing is refused.
pub proof fn law_lock_refuses_when_configured(configured: bool)
    ensures
        gate_open(configured, false) == !configured,
        gate_open(configured, true),
{
}

/// The configuration written when a master password is set accepts that
/// same password when it is verified.
pub proof fn law_set_password_then_verify(doc: Seq<char>, password: Seq<char>)
    requires
        password_document(doc, password),
    ensures
        verification(doc, password) == Some(true),
{
    let (salt, h) = choose|salt: Seq<char>, h: Seq<char>|
        #![trigger argon2_phc_hash(password_bytes(password), salt), argon2_phc_verify(password_bytes(password), h)]
        argon2_phc_hash(password_bytes(password), salt) == Some(h) && doc == security_document(h)
            && json_string_member_of(doc, "password_hash"@) == Some(Some(h))
            && json_string_member_of(doc, "version"@) == Some(None::<Seq<char>>)
            && argon2_phc_verify(password_bytes(password), h) == Some(true);
}

/// What happens to the lock of a running process, one call at a time.
pub enum LockEvent {
    /// A verification with this outcome (`record_verification`, as
    /// `verify_master_password` makes it).
    Verified(Result<bool, String>),
    /// A new master password was written, or failed to be
    /// (`master_password_saved`).
    Saved(Result<(), String>),
    /// `lock_workspace`.
    Locked,
}

/// The lock after one event, as the `ensures` of `record_verification`,
/// `master_password_saved` and `lock_workspace` give it.
pub open spec fn lock_step(unlocked: bool, e: LockEvent) -> bool {
    match e {
        LockEvent::Verified(o) => unlocked || o == Ok::<bool, String>(true),
        LockEvent::Saved(w) => unlocked || w is Ok,
        LockEvent::Locked => false,
    }
}

/// An event that unlocks: a matching password, or a written new one.
pub open spec fn opens_lock(e: LockEvent) -> bool {
    match e {
        LockEvent::Verified(o) => o == Ok::<bool, String>(true),
        LockEvent::Saved(w) => w is Ok,
        LockEvent::Locked => false,
    }
}

/// Some event before `k` unlocked, and no lock came after it (before `k`).
pub open spec fn opened_since_lock(events: Seq<LockEvent>, k: int) -> bool {
    exists|i: int|
        0 <= i < k && #[trigger] opens_lock(events[i]) && forall|j: int| i < j < k ==> !(#[trigger] events[j] is Locked)
}

proof fn lemma_lock_prefix(states: Seq<bool>, events: Seq<LockEvent>, k: int)
    requires
        states.len() == events.len() + 1,
        !states[0],
        forall|i: int| 0 <= i < events.len() ==> #[trigger] states[i + 1] == lock_step(states[i], events[i]),
        0 <= k <= events.len(),
    ensures
        states[k] <==> opened_since_lock(events, k),
    decreases k,
{
    if k > 0 {
        lemma_lock_prefix(states, events, k - 1);
        let e = events[k - 1];
        let m = k - 1;
        assert(states[m + 1] == lock_step(states[m], events[m]));
        assert(states[k] == lock_step(states[k - 1], e));
        if states[k] {
            if opens_lock(e) {
                assert(opens_lock(events[k - 1]));
            } else {
                assert(!(e is Locked));
                let i = choose|i: int|
                    0 <= i < k - 1 && #[trigger] opens_lock(events[i]) && forall|j: int| i < j < k - 1 ==> !(
                    #[trigger] events[j] is Locked);
                assert forall|j: int| i < j < k implies !(#[trigger] events[j] is Locked) by {
                    if j == k - 1 {
                    }
                }
            }
        } else {
            assert(!opens_lock(e));
            if opened_since_lock(events, k) {
                let i = choose|i: int|
                    0 <= i < k && #[trigger] opens_lock(events[i]) && forall|j: int| i < j < k ==> !(
                    #[trigger] events[j] is Locked);
                if i == k - 1 {
                } else if e is Locked {
                    assert(!(events[k - 1] is Locked));
                } else {
                    assert(!states[k - 1]);
                    assert(opened_since_lock(events, k - 1)) by {
                        assert forall|j: int| i < j < k - 1 implies !(#[trigger] events[j] is Locked) by {
                        }
                    }
                }
            }
        }
    } else {
        assert(!opened_since_lock(events, 0));
    }
}

/// A process in which a master password is configured stays locked, and
/// `require_unlocked` refuses, until a verification matches or a new password
/// is written; it stays unlocked from then until `lock_workspace` is called.
/// `states` are the lock's states from a new process (`WorkspaceLock::new`)
/// on, each following from the one before by the event between them.
pub proof fn law_lock_follows_history(states: Seq<bool>, events: Seq<LockEvent>)
    requires
        states.len() == events.len() + 1,
        !states[0],
        forall|i: int| 0 <= i < events.len() ==> #[trigger] states[i + 1] == lock_step(states[i], events[i]),
    ensures
        gate_open(true, states.last()) <==> opened_since_lock(events, events.len() as int),
{
    lemma_lock_prefix(states, events, events.len() as int);
}

} // verus!
