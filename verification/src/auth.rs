//! The credential table, the file it is loaded from, and per-connection
//! identity.
//!
//! Authentication is a property of a connection, not an operation on a cache: it
//! is checked once, at the start, and the storage tier never learns that it
//! exists.
//!
//! The verifier is `SHA-256(secret)`, not a password KDF: the credential is
//! machine-generated with 256 bits of entropy, where guessing is already
//! infeasible against a fast hash.
use crate::config::AuthConfig;
use crate::credentials;
pub use crate::credentials::{generate, Credential, CredentialTable, FileError, Mechanism};
use crate::credentials::{parse, sha256};
use crate::text;
use subtle::ConstantTimeEq;
use vstd::prelude::*;
use vstd::utf8::*;

verus! {

/// The identity a credential-less deployment, a bare `VASH_AUTH_SECRET`, and
/// Redis's one-argument `AUTH` all resolve to.
pub const DEFAULT_NAME: &'static str = "default";

/// Environment variable holding a single `default` secret.
pub const SECRET_ENV: &'static str = "VASH_AUTH_SECRET";

/// Shortest secret accepted, in bytes.
///
/// A fast unsalted hash is correct for a high-entropy token and worthless for
/// `1234`, so the floor is part of the security argument.
pub const MIN_SECRET_LEN: usize = 16;

/// `subtle`'s `ct_eq` on byte slices: true exactly when the bytes are equal.
#[verifier::external_body]
fn digests_equal(a: &[u8; 32], b: &[u8; 32]) -> (equal: bool)
    ensures
        equal == (a@ == b@),
{
    a.as_slice().ct_eq(b.as_slice()).into()
}

/// Who a connection authenticated as.
#[derive(Debug)]
pub struct Identity {
    name: String,
}

impl View for Identity {
    type V = Seq<char>;

    closed spec fn view(&self) -> Seq<char> {
        self.name@
    }
}

impl Clone for Identity {
    fn clone(&self) -> (copy: Self)
        ensures
            copy@ == self@,
    {
        Identity { name: self.name.clone() }
    }
}

impl Identity {
    pub fn name(&self) -> (name: &str)
        ensures
            name@ == self@,
    {
        self.name.as_str()
    }
}

/// The identity of a name that something other than a secret proved.
pub(crate) fn identified(name: &str) -> (identity: Identity)
    ensures
        identity@ == name@,
{
    Identity { name: name.to_owned() }
}

/// One more, or the largest number there is.
pub open spec fn one_more(n: u32) -> u32 {
    if n < u32::MAX {
        (n + 1) as u32
    } else {
        u32::MAX
    }
}

/// One connection's authentication state.
#[derive(Debug)]
pub struct ConnAuth {
    identity: Option<Identity>,
    failures: u32,
}

impl ConnAuth {
    /// The name this connection authenticated as.
    pub closed spec fn who(self) -> Option<Seq<char>> {
        match self.identity {
            Some(identity) => Some(identity@),
            None => None,
        }
    }

    /// How many attempts failed.
    pub closed spec fn failure_count(self) -> u32 {
        self.failures
    }

    pub fn is_authenticated(&self) -> (yes: bool)
        ensures
            yes == (self.who() is Some),
    {
        self.identity.is_some()
    }

    /// Whether this connection has to authenticate before anything else, where
    /// the server may require it.
    pub fn gated(&self, required: bool) -> (yes: bool)
        ensures
            yes == (required && self.who() is None),
    {
        !self.is_authenticated() && required
    }

    pub fn identity(&self) -> (identity: Option<&Identity>)
        ensures
            identity is Some <==> self.who() is Some,
            identity is Some ==> identity->0@ == self.who()->0,
    {
        self.identity.as_ref()
    }

    pub fn failures(&self) -> (n: u32)
        ensures
            n == self.failure_count(),
    {
        self.failures
    }

    /// Records a success, replacing any previous identity.
    ///
    /// Re-authenticating on a live connection is allowed so a pooled connection
    /// can follow a credential rotation without reconnecting.
    pub fn succeed(&mut self, identity: Identity)
        ensures
            final(self).who() == Some(identity@),
            final(self).failure_count() == old(self).failure_count(),
    {
        self.identity = Some(identity);
    }

    /// Records a failure. A failed re-authentication leaves an existing
    /// identity intact: it is an attempt that did not land, not a logout.
    pub fn fail(&mut self)
        ensures
            final(self).who() == old(self).who(),
            final(self).failure_count() == one_more(old(self).failure_count()),
    {
        self.failures = self.failures.saturating_add(1);
    }
}

impl Clone for ConnAuth {
    fn clone(&self) -> (copy: Self)
        ensures
            copy.who() == self.who(),
            copy.failure_count() == self.failure_count(),
    {
        let identity = match &self.identity {
            Some(identity) => Some(identity.clone()),
            None => None,
        };
        ConnAuth { identity, failures: self.failures }
    }
}

impl Default for ConnAuth {
    fn default() -> (fresh: Self)
        ensures
            fresh.who() is None,
            fresh.failure_count() == 0,
    {
        ConnAuth { identity: None, failures: 0 }
    }
}

/// A credential file as it was read: its contents, and its permission bits where
/// the platform has them.
#[derive(Debug)]
pub struct CredentialFile {
    pub text: String,
    pub mode: Option<u32>,
}

/// Where the credentials come from.
#[derive(Debug, Clone, Copy, PartialEq, Eq, Structural)]
pub enum CredentialSource {
    File,
    Environment,
    Nowhere,
}

/// The credentials a server was given.
#[derive(Debug)]
pub enum Given<'a> {
    File(&'a CredentialFile),
    Secret(&'a [u8]),
    Nothing,
}

/// Why no credential table was built.
#[derive(Debug)]
pub enum LoadError {
    BothSources,
    Permissions(u32),
    File(FileError),
    SecretTooShort(usize),
    NothingConfigured,
}

/// Whether permission bits keep a file from group and other, the way `ssh`
/// treats a private key.
pub open spec fn private_mode(mode: u32) -> bool {
    mode & 0o077 == 0
}

/// Refuses a credential file that is group- or world-readable. Where the
/// platform has no permission bits there is nothing to check.
pub fn check_permissions(mode: Option<u32>) -> (checked: Result<(), LoadError>)
    ensures
        match mode {
            None => checked is Ok,
            Some(bits) => if private_mode(bits) {
                checked is Ok
            } else {
                checked == Err::<(), LoadError>(LoadError::Permissions(bits & 0o777))
            },
        },
{
    match mode {
        Some(bits) => if bits & 0o077 == 0 {
            Ok(())
        } else {
            Err(LoadError::Permissions(bits & 0o777))
        },
        None => Ok(()),
    }
}

/// What a load error prints as, for a credential file at `path`.
pub open spec fn load_message(e: LoadError, path: Seq<char>) -> Seq<char> {
    match e {
        LoadError::BothSources =>
            "both auth.file and VASH_AUTH_SECRET are set; use one or the other so it is unambiguous which credentials the server is running with"@,
        LoadError::Permissions(mode) => "the credential file "@ + path + " is mode "@
            + text::octal(mode as nat)
            + "; it must not be readable by group or other. Run: chmod 600 "@ + path,
        LoadError::File(f) => "in the credential file "@ + path + ": "@ + credentials::file_message(
            f.line_number as nat,
            f.line@,
            f.reason@,
        ),
        LoadError::SecretTooShort(n) => "VASH_AUTH_SECRET is "@ + text::decimal(n as nat)
            + " bytes; the minimum is 16. A fast unsalted hash is the right storage for a high-entropy token and the wrong one for a guessable string — see docs/auth.md §3.2"@,
        LoadError::NothingConfigured =>
            "auth.required is set but no credentials are configured; set auth.file or VASH_AUTH_SECRET, or the server would refuse every client including its own peers"@,
    }
}

impl LoadError {
    pub fn message(&self, path: &str) -> (out: String)
        ensures
            out@ == load_message(*self, path@),
    {
        match self {
            LoadError::BothSources =>
                "both auth.file and VASH_AUTH_SECRET are set; use one or the other so it is unambiguous which credentials the server is running with".to_owned(),
            LoadError::Permissions(mode) => {
                let mut out = "the credential file ".to_owned();
                out.append(path);
                out.append(" is mode ");
                text::push_octal(&mut out, *mode as u64);
                out.append("; it must not be readable by group or other. Run: chmod 600 ");
                out.append(path);
                out
            },
            LoadError::File(f) => {
                let mut out = "in the credential file ".to_owned();
                out.append(path);
                out.append(": ");
                out.append(f.message().as_str());
                out
            },
            LoadError::SecretTooShort(n) => {
                let mut out = "VASH_AUTH_SECRET is ".to_owned();
                text::push_decimal(&mut out, *n as u64);
                out.append(
                    " bytes; the minimum is 16. A fast unsalted hash is the right storage for a high-entropy token and the wrong one for a guessable string — see docs/auth.md §3.2",
                );
                out
            },
            LoadError::NothingConfigured =>
                "auth.required is set but no credentials are configured; set auth.file or VASH_AUTH_SECRET, or the server would refuse every client including its own peers".to_owned(),
        }
    }
}

/// Where to look for credentials. Refuses both sources at once rather than
/// silently preferring one.
pub fn credential_source(config: &AuthConfig, secret_in_environment: bool) -> (source: Result<
    CredentialSource,
    LoadError,
>)
    ensures
        source == (if config.file@.len() > 0 && secret_in_environment {
            Err(LoadError::BothSources)
        } else if config.file@.len() > 0 {
            Ok(CredentialSource::File)
        } else if secret_in_environment {
            Ok(CredentialSource::Environment)
        } else {
            Ok(CredentialSource::Nowhere)
        }),
{
    let has_file = !config.file.as_str().is_empty();
    if has_file && secret_in_environment {
        Err(LoadError::BothSources)
    } else if has_file {
        Ok(CredentialSource::File)
    } else if secret_in_environment {
        Ok(CredentialSource::Environment)
    } else {
        Ok(CredentialSource::Nowhere)
    }
}

/// What a credential table enforces: whether it does, and its rows by name.
#[verifier::ext_equal]
pub struct Policy {
    pub required: bool,
    pub table: Map<Seq<u8>, credentials::Secret>,
}

impl Policy {
    /// Whether `secret` proves `name` over `PLAIN`.
    pub open spec fn accepts(self, name: Seq<u8>, secret: Seq<u8>) -> bool {
        &&& self.table.contains_key(name)
        &&& self.table[name].mechanism == Mechanism::Plain
        &&& self.table[name].value == credentials::sha256_digest(secret)
    }
}

/// The credential table, plus whether it is being enforced.
///
/// Enforcement is separate from the table on purpose: configuring credentials
/// while `required` is false is the first step of a rollout.
#[derive(Debug)]
pub struct Auth {
    required: bool,
    table: CredentialTable,
}

impl View for Auth {
    type V = Policy;

    closed spec fn view(&self) -> Policy {
        Policy { required: self.required, table: self.table@ }
    }
}

/// The table that some credentials stand for.
pub open spec fn given_table(given: Given) -> Result<Map<Seq<u8>, credentials::Secret>, LoadFault> {
    match given {
        Given::File(file) => if file.mode is Some && !private_mode(file.mode->0) {
            Err(LoadFault::Permissions(file.mode->0 & 0o777))
        } else {
            match credentials::table_of(file.text@) {
                Ok(table) => Ok(table),
                Err(fault) => Err(LoadFault::File(fault)),
            }
        },
        Given::Secret(secret) => if secret@.len() < MIN_SECRET_LEN {
            Err(LoadFault::SecretTooShort(secret@.len()))
        } else {
            Ok(
                Map::empty().insert(
                    encode_utf8(DEFAULT_NAME@),
                    credentials::Secret {
                        mechanism: Mechanism::Plain,
                        value: credentials::sha256_digest(secret@),
                    },
                ),
            )
        },
        Given::Nothing => Ok(Map::empty()),
    }
}

/// A reason for which no table is built.
#[verifier::ext_equal]
pub enum LoadFault {
    BothSources,
    Permissions(u32),
    File(credentials::FileFault),
    SecretTooShort(nat),
    NothingConfigured,
}

impl View for LoadError {
    type V = LoadFault;

    open spec fn view(&self) -> LoadFault {
        match self {
            LoadError::BothSources => LoadFault::BothSources,
            LoadError::Permissions(mode) => LoadFault::Permissions(*mode),
            LoadError::File(e) => LoadFault::File(e@),
            LoadError::SecretTooShort(n) => LoadFault::SecretTooShort(*n as nat),
            LoadError::NothingConfigured => LoadFault::NothingConfigured,
        }
    }
}

impl Auth {
    pub closed spec fn wf(self) -> bool {
        self.table.wf()
    }

    /// Builds the table from the credentials a server was given.
    ///
    /// Enforcement with an empty table locks everyone out, peers included, so it
    /// is refused.
    pub fn load(config: &AuthConfig, given: Given) -> (loaded: Result<Self, LoadError>)
        ensures
            match given_table(given) {
                Err(fault) => loaded is Err && loaded->Err_0@ == fault,
                Ok(table) => if config.required && table.dom() =~= Set::empty() {
                    loaded is Err && loaded->Err_0@ == LoadFault::NothingConfigured
                } else {
                    loaded is Ok && loaded->Ok_0.wf() && loaded->Ok_0@ == (Policy {
                        required: config.required,
                        table,
                    })
                },
            },
    {
        let table = match given {
            Given::File(file) => {
                match check_permissions(file.mode) {
                    Ok(_) => {},
                    Err(e) => {
                        return Err(e);
                    },
                }
                match parse(file.text.as_str()) {
                    Ok(table) => table,
                    Err(e) => {
                        return Err(LoadError::File(e));
                    },
                }
            },
            Given::Secret(secret) => {
                if secret.len() < MIN_SECRET_LEN {
                    return Err(LoadError::SecretTooShort(secret.len()));
                }
                let mut table = CredentialTable::new();
                let _ = table.insert(
                    DEFAULT_NAME,
                    Credential { mechanism: Mechanism::Plain, value: sha256(secret) },
                );
                table
            },
            Given::Nothing => CredentialTable::new(),
        };
        let rows: usize = table.len();
        proof {
            if rows == 0 {
                assert(table@.dom() =~= Set::empty());
            }
        }
        if config.required && rows == 0 {
            return Err(LoadError::NothingConfigured);
        }
        Ok(Auth { required: config.required, table })
    }

    /// A policy over a table.
    pub fn with_table(required: bool, table: CredentialTable) -> (auth: Self)
        requires
            table.wf(),
        ensures
            auth.wf(),
            auth@ == (Policy { required, table: table@ }),
    {
        Auth { required, table }
    }

    /// A table with one credential.
    pub fn for_test(required: bool, name: &str, secret: &[u8]) -> (auth: Self)
        ensures
            auth.wf(),
            auth@ == (Policy {
                required,
                table: Map::empty().insert(
                    encode_utf8(name@),
                    credentials::Secret {
                        mechanism: Mechanism::Plain,
                        value: credentials::sha256_digest(secret@),
                    },
                ),
            }),
    {
        let mut table = CredentialTable::new();
        let _ = table.insert(
            name,
            Credential { mechanism: Mechanism::Plain, value: sha256(secret) },
        );
        Auth { required, table }
    }

    pub fn required(&self) -> (yes: bool)
        ensures
            yes == self@.required,
    {
        self.required
    }

    /// Whether any credential exists, regardless of enforcement.
    ///
    /// This is what separates "authenticate and retry" from "there is nothing
    /// here to authenticate against".
    pub fn configured(&self) -> (yes: bool)
        requires
            self.wf(),
        ensures
            yes == !(self@.table.dom() =~= Set::empty()),
    {
        let rows: usize = self.table.len();
        proof {
            if rows == 0 {
                assert(self.table@.dom() =~= Set::empty());
            }
        }
        rows > 0
    }

    /// Verifies a `PLAIN` attempt. `None` on any failure, deliberately without
    /// saying which: an error that distinguishes an unknown name from a bad
    /// secret confirms which names exist.
    pub fn verify(&self, name: &[u8], secret: &[u8]) -> (identity: Option<Identity>)
        requires
            self.wf(),
        ensures
            identity is Some <==> self@.accepts(name@, secret@),
            identity is Some ==> encode_utf8(identity->0@) == name@,
    {
        let (stored, credential) = match self.table.lookup(name) {
            Some(row) => row,
            None => {
                return None;
            },
        };
        if credential.mechanism != Mechanism::Plain {
            return None;
        }
        let presented = sha256(secret);
        if digests_equal(&presented, &credential.value) {
            Some(Identity { name: stored })
        } else {
            None
        }
    }
}

impl Default for Auth {
    fn default() -> (auth: Self)
        ensures
            auth.wf(),
            auth@ == (Policy { required: false, table: Map::empty() }),
    {
        Auth { required: false, table: CredentialTable::new() }
    }
}

/// A key row holds the secret itself. It never satisfies a `PLAIN` attempt,
/// whatever is presented.
pub proof fn a_key_row_never_satisfies_plain(policy: Policy, name: Seq<u8>, secret: Seq<u8>)
    requires
        policy.table.contains_key(name),
        policy.table[name].mechanism == Mechanism::HmacSha256,
    ensures
        !policy.accepts(name, secret),
{
}

/// A generated line verifies its own secret: the table loaded from the line of a
/// digest accepts its name with exactly the secrets of that digest, and accepts
/// no other name.
pub proof fn a_generated_line_verifies_its_secret(
    name: Seq<char>,
    digest: Seq<u8>,
    required: bool,
    other: Seq<u8>,
    attempt: Seq<u8>,
)
    requires
        credentials::name_fault(name) is None,
        digest.len() == 32,
    ensures
        credentials::table_of(credentials::row_line(name, digest)) is Ok,
        ({
            let table = credentials::table_of(credentials::row_line(name, digest))->Ok_0;
            let policy = Policy { required, table };
            &&& policy.accepts(encode_utf8(name), attempt) <==> credentials::sha256_digest(attempt)
                == digest
            &&& other != encode_utf8(name) ==> !policy.accepts(other, attempt)
        }),
{
    credentials::a_row_line_loads_as_its_row(name, digest);
}

/// Bounds on what an unauthenticated connection may consume.
#[derive(Debug, Clone, Copy)]
pub struct Limits {
    /// How long a connection may stay unauthenticated before it is dropped.
    pub timeout_ms: u64,
    /// Failed attempts on one connection before it is closed.
    pub max_attempts: u32,
    /// Concurrent unauthenticated connections. Without it the pre-auth budget
    /// is the whole connection budget.
    pub max_connections: usize,
}

/// The live table plus the pre-auth budget, shared by every connection.
///
/// Whether authentication is enforced is a question every command asks, so it is
/// mirrored beside the table.
#[derive(Debug)]
pub struct AuthState {
    current: Auth,
    required: bool,
    limits: Limits,
}

impl View for AuthState {
    type V = Policy;

    closed spec fn view(&self) -> Policy {
        self.current@
    }
}

impl AuthState {
    /// The mirror agrees with the table it describes.
    pub closed spec fn wf(self) -> bool {
        self.current.wf() && self.required == self.current@.required
    }

    /// The bounds in force.
    pub closed spec fn budget(self) -> Limits {
        self.limits
    }

    pub fn new(auth: Auth, limits: Limits) -> (state: Self)
        requires
            auth.wf(),
        ensures
            state.wf(),
            state@ == auth@,
            state.budget() == limits,
    {
        AuthState { required: auth.required(), current: auth, limits }
    }

    /// Whether this server enforces authentication.
    pub fn required(&self) -> (yes: bool)
        requires
            self.wf(),
        ensures
            yes == self@.required,
    {
        self.required
    }

    /// The bounds on what an unauthenticated connection may consume.
    pub fn limits(&self) -> (limits: Limits)
        ensures
            limits == self.budget(),
    {
        self.limits
    }

    /// The table as it stands.
    pub fn current(&self) -> (auth: &Auth)
        requires
            self.wf(),
        ensures
            auth.wf(),
            auth@ == self@,
    {
        &self.current
    }

    /// Swaps in a freshly loaded table.
    ///
    /// Connections that already authenticated keep the identity they
    /// authenticated with; only new attempts see the new table.
    pub fn replace(&mut self, auth: Auth)
        requires
            old(self).wf(),
            auth.wf(),
        ensures
            final(self).wf(),
            final(self)@ == auth@,
            final(self).budget() == old(self).budget(),
    {
        self.required = auth.required();
        self.current = auth;
    }
}

/// A file is private exactly where neither its group nor anybody else may do anything
/// with it.
pub proof fn a_private_file_is_its_owners_alone(mode: u32)
    ensures
        private_mode(mode) <==> mode % 0o100 == 0,
{
    assert(mode & 0o077 == mode % 0o100) by (bit_vector);
}

/// A secret from the environment is the credential of the default name and of no
/// other, and one that is too short is no credential at all.
pub proof fn a_secret_alone_is_the_default_credential(
    secret: &[u8],
    required: bool,
    name: Seq<u8>,
    attempt: Seq<u8>,
)
    ensures
        given_table(Given::Secret(secret)) is Ok <==> secret@.len() >= MIN_SECRET_LEN,
        given_table(Given::Secret(secret)) matches Ok(table) ==> {
            let policy = Policy { required, table };
            &&& policy.accepts(encode_utf8(DEFAULT_NAME@), secret@)
            &&& policy.accepts(name, attempt) ==> name == encode_utf8(DEFAULT_NAME@)
                && credentials::sha256_digest(attempt) == credentials::sha256_digest(secret@)
        },
        given_table(Given::Nothing) matches Ok(table) && !(Policy { required, table }).accepts(
            name,
            attempt,
        ),
{
}

/// A credential file is loaded only where it is private, and then whole; a line in it
/// makes its secret good under its name, and nothing else in the file can.
pub proof fn a_file_is_loaded_whole_and_only_where_it_is_private(
    file: &CredentialFile,
    name: Seq<u8>,
    secret: Seq<u8>,
)
    ensures
        given_table(Given::File(file)) is Ok <==> (file.mode is None || private_mode(
            file.mode->0,
        )) && credentials::table_of(file.text@) is Ok,
        given_table(Given::File(file)) matches Ok(table) ==> {
            let policy = Policy { required: true, table };
            policy.accepts(name, secret) ==> (credentials::table_of(file.text@) matches Ok(rows)
                && rows.contains_key(name) && rows[name].value == credentials::sha256_digest(
                secret,
            ))
        },
{
}

} // verus!
