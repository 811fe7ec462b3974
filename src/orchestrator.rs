use vstd::prelude::*;

use crate::routing::strings_view;

verus! {

#[verifier::external_type_specification]
#[verifier::external_body]
pub struct ExJsonError(serde_json::Error);

/// What a JSON text holds when it is an array of strings.
pub uninterp spec fn json_string_list(text: Seq<char>) -> Option<Seq<Seq<char>>>;

/// Relies on `serde_json::from_str::<Vec<String>>`: it reads a JSON array of strings; the
/// outcome depends on the text alone.
#[verifier::external_body]
fn parse_string_list(text: &str) -> (r: Result<Vec<String>, serde_json::Error>)
    ensures
        match r {
            Ok(v) => json_string_list(text@) == Some(strings_view(v@)),
            Err(_) => json_string_list(text@) is None,
        },
{
    serde_json::from_str::<Vec<String>>(text)
}

/// The service type that the Scabbard factory creates.
pub const SCABBARD_SERVICE_TYPE: &'static str = "scabbard";

/// Default directory of Scabbard's databases.
pub const DEFAULT_DB_DIR: &'static str = "/var/lib/splinter";

/// Default size of Scabbard's databases, 1028 * 1028 * 1028 bytes.
pub const DEFAULT_DB_SIZE: usize = 1028 * 1028 * 1028;

/// Why a factory could not create a service.
#[derive(Debug)]
pub enum FactoryCreateError {
    InvalidArguments(String),
    CreationFailed(String),
}

/// A Scabbard service instance, as configured by its factory.
pub struct ScabbardService {
    pub service_id: String,
    pub peer_services: Vec<String>,
    pub db_dir: String,
    pub db_size: usize,
    pub admin_keys: Vec<String>,
}

impl ScabbardService {
    /// The service's id.
    pub fn service_id(&self) -> (r: &str)
        ensures
            r@ == self.service_id@,
    {
        self.service_id.as_str()
    }
}

/// Creates Scabbard services.
pub struct ScabbardFactory {
    pub service_types: Vec<String>,
    pub db_dir: String,
    pub db_size: usize,
}

/// The value of the last pair with key `key`, if any.
pub open spec fn arg_value(args: Seq<(String, String)>, key: Seq<char>) -> Option<Seq<char>>
    decreases args.len(),
{
    if args.len() == 0 {
        None
    } else if args.last().0@ == key {
        Some(args.last().1@)
    } else {
        arg_value(args.drop_last(), key)
    }
}

/// The value of the last pair with key `key`, as a map built by inserting the pairs in order
/// would hold it.
pub fn find_arg<'a>(args: &'a Vec<(String, String)>, key: &String) -> (r: Option<&'a String>)
    ensures
        match r {
            Some(v) => arg_value(args@, key@) == Some(v@),
            None => arg_value(args@, key@) is None,
        },
{
    let mut k: usize = args.len();
    assert(args@.subrange(0, k as int) =~= args@);
    while k > 0
        invariant
            k <= args@.len(),
            arg_value(args@, key@) == arg_value(args@.subrange(0, k as int), key@),
        decreases k,
    {
        assert(args@.subrange(0, k as int).drop_last() =~= args@.subrange(0, k - 1));
        if args[k - 1].0 == *key {
            return Some(&args[k - 1].1);
        }
        k = k - 1;
    }
    None
}

impl ScabbardFactory {
    /// A factory that stores databases under `db_dir` (by default `/var/lib/splinter`) with
    /// size `db_size` (by default `DEFAULT_DB_SIZE`).
    pub fn new(db_dir: Option<String>, db_size: Option<usize>) -> (r: Self)
        ensures
            strings_view(r.service_types@) == seq![SCABBARD_SERVICE_TYPE@],
            r.db_dir@ == match db_dir {
                Some(d) => d@,
                None => DEFAULT_DB_DIR@,
            },
            r.db_size == match db_size {
                Some(s) => s,
                None => DEFAULT_DB_SIZE,
            },
    {
        let mut service_types: Vec<String> = Vec::new();
        service_types.push(String::from_str(SCABBARD_SERVICE_TYPE));
        proof {
            assert(strings_view(service_types@) =~= seq![SCABBARD_SERVICE_TYPE@]);
        }
        ScabbardFactory {
            service_types,
            db_dir: match db_dir {
                Some(d) => d,
                None => String::from_str(DEFAULT_DB_DIR),
            },
            db_size: match db_size {
                Some(s) => s,
                None => DEFAULT_DB_SIZE,
            },
        }
    }

    /// The service types this factory creates.
    pub fn available_service_types(&self) -> (r: &[String])
        ensures
            r@ == self.service_types@,
    {
        self.service_types.as_slice()
    }

    /// Creates a Scabbard service. `args` must hold `admin_keys`, a JSON array of the public
    /// keys allowed to administer the service.
    pub fn create(
        &self,
        service_id: String,
        service_type: &str,
        peer_services: Vec<String>,
        args: Vec<(String, String)>,
    ) -> (r: Result<ScabbardService, FactoryCreateError>)
        ensures
            match r {
                Ok(s) => arg_value(args@, "admin_keys"@) is Some && json_string_list(
                    arg_value(args@, "admin_keys"@).unwrap(),
                ) == Some(strings_view(s.admin_keys@)) && s.service_id == service_id
                    && s.peer_services == peer_services && s.db_dir == self.db_dir && s.db_size
                    == self.db_size,
                Err(FactoryCreateError::InvalidArguments(m)) => if arg_value(args@, "admin_keys"@) is None {
                    m@ == "admin_keys argument not specified"@
                } else {
                    json_string_list(arg_value(args@, "admin_keys"@).unwrap()) is None
                        && crate::text::has_prefix(m@, "failed to parse admin_keys list: "@)
                },
                Err(FactoryCreateError::CreationFailed(_)) => false,
            },
    {
        let key = String::from_str("admin_keys");
        let admin_keys_str = match find_arg(&args, &key) {
            Some(v) => v,
            None => {
                return Err(
                    FactoryCreateError::InvalidArguments(
                        String::from_str("admin_keys argument not specified"),
                    ),
                );
            },
        };
        let admin_keys = match parse_string_list(admin_keys_str.as_str()) {
            Ok(keys) => keys,
            Err(err) => {
                let message = String::from_str("failed to parse admin_keys list: ").concat(
                    err.to_string().as_str(),
                );
                proof {
                    assert(message@.subrange(0, "failed to parse admin_keys list: "@.len() as int)
                        =~= "failed to parse admin_keys list: "@);
                }
                return Err(FactoryCreateError::InvalidArguments(message));
            },
        };
        Ok(
            ScabbardService {
                service_id,
                peer_services,
                db_dir: self.db_dir.clone(),
                db_size: self.db_size,
                admin_keys,
            },
        )
    }
}

/// The lifecycle of a hosted service.
#[derive(Clone, Copy, Debug, PartialEq, Eq, Structural)]
pub enum ServiceState {
    New,
    Started,
    Stopped,
    Destroyed,
}

/// The lifecycle moves forward only, but for stopping and starting again.
pub open spec fn allowed_transition(from: ServiceState, to: ServiceState) -> bool {
    ||| from == ServiceState::New && to == ServiceState::Started
    ||| from == ServiceState::Started && to == ServiceState::Stopped
    ||| from == ServiceState::Stopped && to == ServiceState::Started
    ||| from == ServiceState::Stopped && to == ServiceState::Destroyed
}

/// A service to host: where it runs, what it is and how it is configured.
pub struct ServiceDefinition {
    pub circuit: String,
    pub service_id: String,
    pub service_type: String,
    pub peer_services: Vec<String>,
    pub arguments: Vec<(String, String)>,
}

/// A hosted service and its state.
pub struct ServiceRecord {
    pub circuit: String,
    pub service_id: String,
    pub service_type: String,
    pub state: ServiceState,
    pub service: ScabbardService,
    /// Why the service stopped, where it stopped on a failure.
    pub failure: Option<String>,
}

/// Why the orchestrator refused an operation.
#[derive(Debug)]
pub enum OrchestratorError {
    UnknownServiceType,
    ServiceExists,
    UnknownService,
    InvalidTransition(ServiceState),
    Creation(FactoryCreateError),
}

pub open spec fn record_is(r: ServiceRecord, c: Seq<char>, s: Seq<char>) -> bool {
    r.circuit@ == c && r.service_id@ == s
}

/// The state of service `s` of circuit `c`: that of its latest record.
pub open spec fn state_in(rs: Seq<ServiceRecord>, c: Seq<char>, s: Seq<char>) -> Option<ServiceState>
    decreases rs.len(),
{
    if rs.len() == 0 {
        None
    } else if record_is(rs.last(), c, s) {
        Some(rs.last().state)
    } else {
        state_in(rs.drop_last(), c, s)
    }
}

proof fn lemma_state_other_update(rs: Seq<ServiceRecord>, k: int, x: ServiceRecord, c: Seq<char>, s: Seq<char>)
    requires
        0 <= k < rs.len(),
        !record_is(rs[k], c, s),
        !record_is(x, c, s),
    ensures
        state_in(rs.update(k, x), c, s) == state_in(rs, c, s),
    decreases rs.len(),
{
    let w = rs.update(k, x);
    if k == rs.len() - 1 {
        assert(w.drop_last() =~= rs.drop_last());
    } else {
        assert(w.drop_last() =~= rs.drop_last().update(k, x));
        lemma_state_other_update(rs.drop_last(), k, x, c, s);
    }
}

proof fn lemma_state_own_update(rs: Seq<ServiceRecord>, k: int, x: ServiceRecord, c: Seq<char>, s: Seq<char>)
    requires
        0 <= k < rs.len(),
        record_is(x, c, s),
        forall|j: int| k < j < rs.len() ==> !record_is(#[trigger] rs[j], c, s),
    ensures
        state_in(rs.update(k, x), c, s) == Some(x.state),
    decreases rs.len(),
{
    let w = rs.update(k, x);
    if k < rs.len() - 1 {
        assert(!record_is(rs[rs.len() - 1], c, s));
        assert(w.drop_last() =~= rs.drop_last().update(k, x));
        lemma_state_own_update(rs.drop_last(), k, x, c, s);
    }
}

proof fn lemma_state_push(rs: Seq<ServiceRecord>, x: ServiceRecord, c: Seq<char>, s: Seq<char>)
    ensures
        state_in(rs.push(x), c, s) == if record_is(x, c, s) {
            Some(x.state)
        } else {
            state_in(rs, c, s)
        },
{
    assert(rs.push(x).drop_last() =~= rs);
}

/// Whether the factory refuses the arguments of a service definition.
pub open spec fn arguments_refused(args: Seq<(String, String)>) -> bool {
    arg_value(args, "admin_keys"@) is None || json_string_list(arg_value(args, "admin_keys"@).unwrap()) is None
}

/// Hosts service instances and owns their records.
pub struct ServiceOrchestrator {
    factory: ScabbardFactory,
    records: Vec<ServiceRecord>,
}

impl ServiceOrchestrator {
    /// The state of a service, if it is hosted here.
    pub closed spec fn state_of(&self, c: Seq<char>, s: Seq<char>) -> Option<ServiceState> {
        state_in(self.records@, c, s)
    }

    pub closed spec fn service_types(&self) -> Seq<Seq<char>> {
        strings_view(self.factory.service_types@)
    }

    /// An orchestrator that hosts nothing yet and creates services with `factory`.
    pub fn new(factory: ScabbardFactory) -> (r: Self)
        ensures
            forall|c: Seq<char>, s: Seq<char>| #[trigger] r.state_of(c, s) is None,
            r.service_types() == strings_view(factory.service_types@),
    {
        ServiceOrchestrator { factory, records: Vec::new() }
    }

    fn find_record(&self, circuit: &String, service_id: &String) -> (r: Option<usize>)
        ensures
            match r {
                Some(k) => k < self.records@.len() && record_is(
                    self.records@[k as int],
                    circuit@,
                    service_id@,
                ) && (forall|j: int|
                    k < j < self.records@.len() ==> !record_is(
                        #[trigger] self.records@[j],
                        circuit@,
                        service_id@,
                    )) && self.state_of(circuit@, service_id@) == Some(
                    self.records@[k as int].state,
                ),
                None => self.state_of(circuit@, service_id@) is None,
            },
    {
        let ghost rs = self.records@;
        let mut k: usize = self.records.len();
        assert(rs.subrange(0, k as int) =~= rs);
        while k > 0
            invariant
                k <= rs.len(),
                rs == self.records@,
                state_in(rs, circuit@, service_id@) == state_in(
                    rs.subrange(0, k as int),
                    circuit@,
                    service_id@,
                ),
                forall|j: int| k <= j < rs.len() ==> !record_is(#[trigger] rs[j], circuit@, service_id@),
            decreases k,
        {
            assert(rs.subrange(0, k as int).drop_last() =~= rs.subrange(0, k - 1));
            if self.records[k - 1].circuit == *circuit && self.records[k - 1].service_id
                == *service_id {
                return Some(k - 1);
            }
            k = k - 1;
        }
        None
    }

    /// The state of a service, if it is hosted here.
    pub fn service_state(&self, circuit: &String, service_id: &String) -> (r: Option<ServiceState>)
        ensures
            r == self.state_of(circuit@, service_id@),
    {
        match self.find_record(circuit, service_id) {
            Some(k) => Some(self.records[k].state),
            None => None,
        }
    }

    fn contains_type(&self, service_type: &String) -> (r: bool)
        ensures
            r == self.service_types().contains(service_type@),
    {
        crate::routing::contains_string(&self.factory.service_types, service_type)
    }

    /// Creates a service with the factory for its type and starts it. A service that is or was
    /// hosted here, destroyed ones included, cannot be initialized again.
    pub fn initialize_service(&mut self, definition: ServiceDefinition) -> (r: Result<
        (),
        OrchestratorError,
    >)
        ensures
            final(self).service_types() == old(self).service_types(),
            forall|c: Seq<char>, s: Seq<char>|
                !(c == definition.circuit@ && s == definition.service_id@) ==> #[trigger] final(self).state_of(c, s) == old(self).state_of(c, s),
            match r {
                Ok(()) => final(self).state_of(definition.circuit@, definition.service_id@) == Some(
                    ServiceState::Started,
                ) && old(self).service_types().contains(definition.service_type@)
                    && !arguments_refused(definition.arguments@) && old(self).state_of(
                    definition.circuit@,
                    definition.service_id@,
                ) is None,
                Err(e) => final(self).state_of(definition.circuit@, definition.service_id@) == old(self).state_of(definition.circuit@, definition.service_id@) && match e {
                    OrchestratorError::UnknownServiceType => !old(self).service_types().contains(
                        definition.service_type@,
                    ),
                    OrchestratorError::ServiceExists => old(self).service_types().contains(
                        definition.service_type@,
                    ) && old(self).state_of(definition.circuit@, definition.service_id@) is Some,
                    OrchestratorError::Creation(_) => old(self).service_types().contains(
                        definition.service_type@,
                    ) && arguments_refused(definition.arguments@) && old(self).state_of(
                        definition.circuit@,
                        definition.service_id@,
                    ) is None,
                    _ => false,
                },
            },
    {
        if !self.contains_type(&definition.service_type) {
            return Err(OrchestratorError::UnknownServiceType);
        }
        match self.find_record(&definition.circuit, &definition.service_id) {
            Some(_) => return Err(OrchestratorError::ServiceExists),
            None => {},
        }
        let service = match self.factory.create(
            definition.service_id.clone(),
            definition.service_type.as_str(),
            definition.peer_services,
            definition.arguments,
        ) {
            Ok(service) => service,
            Err(e) => return Err(OrchestratorError::Creation(e)),
        };
        let record = ServiceRecord {
            circuit: definition.circuit,
            service_id: definition.service_id,
            service_type: definition.service_type,
            state: ServiceState::Started,
            service,
            failure: None,
        };
        let ghost rs = self.records@;
        self.records.push(record);
        proof {
            assert forall|c: Seq<char>, s: Seq<char>| true implies #[trigger] state_in(
                self.records@,
                c,
                s,
            ) == if record_is(record, c, s) {
                Some(record.state)
            } else {
                state_in(rs, c, s)
            } by {
                lemma_state_push(rs, record, c, s);
            }
        }
        Ok(())
    }

    /// Moves a service from state `from` to state `to`, recording `failure`.
    fn transition(
        &mut self,
        circuit: &String,
        service_id: &String,
        from: ServiceState,
        to: ServiceState,
        failure: Option<String>,
    ) -> (r: Result<(), OrchestratorError>)
        ensures
            final(self).service_types() == old(self).service_types(),
            forall|c: Seq<char>, s: Seq<char>|
                !(c == circuit@ && s == service_id@) ==> #[trigger] final(self).state_of(c, s) == old(self).state_of(c, s),
            match old(self).state_of(circuit@, service_id@) {
                None => r matches Err(OrchestratorError::UnknownService) && final(self).state_of(
                    circuit@,
                    service_id@,
                ) is None,
                Some(st) => if st == from {
                    r is Ok && final(self).state_of(circuit@, service_id@) == Some(to)
                } else {
                    r matches Err(OrchestratorError::InvalidTransition(x)) && x == st && final(self).state_of(circuit@, service_id@) == Some(st)
                },
            },
    {
        let k = match self.find_record(circuit, service_id) {
            Some(k) => k,
            None => return Err(OrchestratorError::UnknownService),
        };
        let current = self.records[k].state;
        if current != from {
            return Err(OrchestratorError::InvalidTransition(current));
        }
        let ghost rs = self.records@;
        self.records[k].state = to;
        self.records[k].failure = failure;
        proof {
            let x = self.records@[k as int];
            assert(self.records@ =~= rs.update(k as int, x));
            lemma_state_own_update(rs, k as int, x, circuit@, service_id@);
            assert forall|c: Seq<char>, s: Seq<char>|
                !(c == circuit@ && s == service_id@) implies #[trigger] state_in(
                self.records@,
                c,
                s,
            ) == state_in(rs, c, s) by {
                lemma_state_other_update(rs, k as int, x, c, s);
            }
        }
        Ok(())
    }

    /// Stops the message flow of a started service.
    pub fn shutdown_service(&mut self, circuit: &String, service_id: &String) -> (r: Result<
        (),
        OrchestratorError,
    >)
        ensures
            final(self).service_types() == old(self).service_types(),
            forall|c: Seq<char>, s: Seq<char>|
                !(c == circuit@ && s == service_id@) ==> #[trigger] final(self).state_of(c, s) == old(self).state_of(c, s),
            r is Ok <==> old(self).state_of(circuit@, service_id@) == Some(ServiceState::Started),
            r is Ok ==> final(self).state_of(circuit@, service_id@) == Some(ServiceState::Stopped),
            r is Err ==> final(self).state_of(circuit@, service_id@) == old(self).state_of(
                circuit@,
                service_id@,
            ),
    {
        self.transition(circuit, service_id, ServiceState::Started, ServiceState::Stopped, None)
    }

    /// Starts a stopped service again.
    pub fn restart_service(&mut self, circuit: &String, service_id: &String) -> (r: Result<
        (),
        OrchestratorError,
    >)
        ensures
            final(self).service_types() == old(self).service_types(),
            forall|c: Seq<char>, s: Seq<char>|
                !(c == circuit@ && s == service_id@) ==> #[trigger] final(self).state_of(c, s) == old(self).state_of(c, s),
            r is Ok <==> old(self).state_of(circuit@, service_id@) == Some(ServiceState::Stopped),
            r is Ok ==> final(self).state_of(circuit@, service_id@) == Some(ServiceState::Started),
            r is Err ==> final(self).state_of(circuit@, service_id@) == old(self).state_of(
                circuit@,
                service_id@,
            ),
    {
        self.transition(circuit, service_id, ServiceState::Stopped, ServiceState::Started, None)
    }

    /// Destroys a stopped service.
    pub fn destroy_service(&mut self, circuit: &String, service_id: &String) -> (r: Result<
        (),
        OrchestratorError,
    >)
        ensures
            final(self).service_types() == old(self).service_types(),
            forall|c: Seq<char>, s: Seq<char>|
                !(c == circuit@ && s == service_id@) ==> #[trigger] final(self).state_of(c, s) == old(self).state_of(c, s),
            r is Ok <==> old(self).state_of(circuit@, service_id@) == Some(ServiceState::Stopped),
            r is Ok ==> final(self).state_of(circuit@, service_id@) == Some(ServiceState::Destroyed),
            r is Err ==> final(self).state_of(circuit@, service_id@) == old(self).state_of(
                circuit@,
                service_id@,
            ),
    {
        self.transition(circuit, service_id, ServiceState::Stopped, ServiceState::Destroyed, None)
    }

    /// Records that a started service failed: it is stopped, with the cause kept.
    pub fn record_failure(&mut self, circuit: &String, service_id: &String, cause: String) -> (r:
        Result<(), OrchestratorError>)
        ensures
            final(self).service_types() == old(self).service_types(),
            forall|c: Seq<char>, s: Seq<char>|
                !(c == circuit@ && s == service_id@) ==> #[trigger] final(self).state_of(c, s) == old(self).state_of(c, s),
            r is Ok <==> old(self).state_of(circuit@, service_id@) == Some(ServiceState::Started),
            r is Ok ==> final(self).state_of(circuit@, service_id@) == Some(ServiceState::Stopped),
            r is Err ==> final(self).state_of(circuit@, service_id@) == old(self).state_of(
                circuit@,
                service_id@,
            ),
    {
        self.transition(
            circuit,
            service_id,
            ServiceState::Started,
            ServiceState::Stopped,
            Some(cause),
        )
    }

    /// The hosted service instance, if the service is hosted here.
    pub fn service(&self, circuit: &String, service_id: &String) -> (r: Option<&ScabbardService>)
        ensures
            r is Some <==> self.state_of(circuit@, service_id@) is Some,
    {
        match self.find_record(circuit, service_id) {
            Some(k) => Some(&self.records[k].service),
            None => None,
        }
    }
}

/// Every change of a service's state that the orchestrator makes is allowed by its lifecycle.
pub proof fn lemma_lifecycle_steps()
    ensures
        allowed_transition(ServiceState::Started, ServiceState::Stopped),
        allowed_transition(ServiceState::Stopped, ServiceState::Started),
        allowed_transition(ServiceState::Stopped, ServiceState::Destroyed),
        !allowed_transition(ServiceState::Destroyed, ServiceState::Started),
        !allowed_transition(ServiceState::Stopped, ServiceState::New),
{
}

} // verus!
