//! The node's request handling and its connection settings: which server
//! it reports to, and what each service request sets in motion.

use vstd::prelude::*;
use crate::json::{json_str_member, parse_str_member};
use crate::message::{ServiceMsgType, ServiceType};
use crate::service::storage::after_storage_write;
use crate::service::{MetaData, Service, ServiceData};
use crate::text::{push_str, str_eq};

verus! {

/// The environment the node runs in (`RUN_MODE`).
#[derive(Clone, Copy, Debug, PartialEq, Eq, Structural)]
pub enum RunMode {
    Test,
    Dev,
}

/// The run mode that a `RUN_MODE` value names, if any.
pub open spec fn run_mode_spec(s: Seq<char>) -> Option<RunMode> {
    if s == "TEST"@ {
        Some(RunMode::Test)
    } else if s == "DEV"@ {
        Some(RunMode::Dev)
    } else {
        None
    }
}

/// The address of the server that the node reports to in a run mode.
pub open spec fn server_ip_spec(mode: RunMode) -> Seq<char> {
    match mode {
        RunMode::Test => "172.28.5.77"@,
        RunMode::Dev => "127.0.0.1"@,
    }
}

/// The server's address and port (7779).
pub open spec fn server_address_spec(mode: RunMode) -> Seq<char> {
    server_ip_spec(mode) + ":"@ + "7779"@
}

impl RunMode {
    /// Whether `s` names a run mode (`TEST` or `DEV`).
    pub fn is_named(s: &str) -> (r: bool)
        ensures
            r == run_mode_spec(s@) is Some,
    {
        str_eq(s, "TEST") || str_eq(s, "DEV")
    }

    /// The run mode that `s` names: `TEST` or `DEV`.
    pub fn parse(s: &str) -> (r: RunMode)
        requires
            run_mode_spec(s@) is Some,
        ensures
            Some(r) == run_mode_spec(s@),
    {
        if str_eq(s, "TEST") {
            RunMode::Test
        } else {
            RunMode::Dev
        }
    }

    /// The address of the server to report to.
    pub fn server_ip(&self) -> (r: &'static str)
        ensures
            r@ == server_ip_spec(*self),
    {
        match self {
            RunMode::Test => "172.28.5.77",
            RunMode::Dev => "127.0.0.1",
        }
    }

    /// The address and port to connect to, as `ip:port`.
    pub fn server_address(&self) -> (r: String)
        ensures
            r@ == server_address_spec(*self),
    {
        let mut out = String::new();
        push_str(&mut out, self.server_ip());
        push_str(&mut out, ":");
        push_str(&mut out, "7779");
        out
    }
}

/// What a service request sets in motion.
#[derive(Clone, Copy, Debug, PartialEq, Eq, Structural)]
pub enum Dispatch {
    /// Hand a new function to the function runner; counts an instance.
    InitFunction,
    /// Hand an updated function to the function runner.
    UpdateFunction,
    /// Answer a read from the block file.
    StorageRead,
    /// Append the sent bytes to the block file.
    StorageWrite,
    /// Forward a deployment to the VM; counts an instance.
    DeployApp,
    /// Start the VM.
    StartVm,
    /// Nothing.
    Nothing,
}

/// What a request of kind `msg_type` for `service_type` sets in motion,
/// given the `msg_type` field of its content (`action`). `None` where the
/// request needs that field and it is not a string.
pub open spec fn route_spec(
    msg_type: ServiceMsgType,
    service_type: ServiceType,
    action: Option<Seq<char>>,
) -> Option<Dispatch> {
    match msg_type {
        ServiceMsgType::SERVICEINIT => match service_type {
            ServiceType::Faas => Some(Dispatch::InitFunction),
            ServiceType::Storage => match action {
                Some(a) => Some(
                    if a == "read"@ {
                        Dispatch::StorageRead
                    } else if a == "write"@ {
                        Dispatch::StorageWrite
                    } else {
                        Dispatch::Nothing
                    },
                ),
                None => None,
            },
            ServiceType::Paas => match action {
                Some(a) => Some(
                    if a == "deploy"@ {
                        Dispatch::DeployApp
                    } else {
                        Dispatch::Nothing
                    },
                ),
                None => None,
            },
        },
        ServiceMsgType::SERVICEUPDATE => match service_type {
            ServiceType::Faas => Some(Dispatch::UpdateFunction),
            _ => Some(Dispatch::Nothing),
        },
        ServiceMsgType::SERVICEMANAGE => match service_type {
            ServiceType::Paas => match action {
                Some(a) => Some(
                    if a == "start"@ {
                        Dispatch::StartVm
                    } else {
                        Dispatch::Nothing
                    },
                ),
                None => None,
            },
            _ => Some(Dispatch::Nothing),
        },
    }
}

/// The characters of an optional string slice.
pub open spec fn opt_str_view(o: Option<&str>) -> Option<Seq<char>> {
    match o {
        Some(s) => Some(s@),
        None => None,
    }
}

/// Whether a request of kind `msg_type` for `service_type` needs the
/// `msg_type` field of its content.
pub open spec fn needs_action(msg_type: ServiceMsgType, service_type: ServiceType) -> bool {
    ||| (msg_type == ServiceMsgType::SERVICEINIT && service_type != ServiceType::Faas)
    ||| (msg_type == ServiceMsgType::SERVICEMANAGE && service_type == ServiceType::Paas)
}

fn needs_action_field(msg_type: ServiceMsgType, service_type: ServiceType) -> (r: bool)
    ensures
        r == needs_action(msg_type, service_type),
{
    match (msg_type, service_type) {
        (ServiceMsgType::SERVICEINIT, ServiceType::Faas) => false,
        (ServiceMsgType::SERVICEINIT, _) => true,
        (ServiceMsgType::SERVICEMANAGE, ServiceType::Paas) => true,
        _ => false,
    }
}

/// Decides what a service request sets in motion.
pub fn route(msg_type: ServiceMsgType, service_type: ServiceType, action: Option<&str>) -> (r:
    Dispatch)
    requires
        needs_action(msg_type, service_type) ==> action is Some,
    ensures
        Some(r) == route_spec(msg_type, service_type, opt_str_view(action)),
{
    match msg_type {
        ServiceMsgType::SERVICEINIT => match service_type {
            ServiceType::Faas => Dispatch::InitFunction,
            ServiceType::Storage => match action {
                Some(a) => {
                    if str_eq(a, "read") {
                        Dispatch::StorageRead
                    } else if str_eq(a, "write") {
                        Dispatch::StorageWrite
                    } else {
                        Dispatch::Nothing
                    }
                },
                None => Dispatch::Nothing,
            },
            ServiceType::Paas => match action {
                Some(a) => {
                    if str_eq(a, "deploy") {
                        Dispatch::DeployApp
                    } else {
                        Dispatch::Nothing
                    }
                },
                None => Dispatch::Nothing,
            },
        },
        ServiceMsgType::SERVICEUPDATE => match service_type {
            ServiceType::Faas => Dispatch::UpdateFunction,
            _ => Dispatch::Nothing,
        },
        ServiceMsgType::SERVICEMANAGE => match service_type {
            ServiceType::Paas => match action {
                Some(a) => {
                    if str_eq(a, "start") {
                        Dispatch::StartVm
                    } else {
                        Dispatch::Nothing
                    }
                },
                None => Dispatch::Nothing,
            },
            _ => Dispatch::Nothing,
        },
    }
}

/// What a request sets in motion, from its JSON content: `None` where the
/// content is not a JSON document, or where the request needs the content's
/// `msg_type` field and that is not a string.
pub fn route_request(msg_type: ServiceMsgType, service_type: ServiceType, content: &str) -> (r:
    Option<Dispatch>)
    ensures
        r == match json_str_member(content@, "msg_type"@) {
            None => None,
            Some(a) => route_spec(msg_type, service_type, a),
        },
{
    match parse_str_member(content, "msg_type") {
        None => None,
        Some(a) => {
            match &a {
                Some(x) => Some(route(msg_type, service_type, Some(x.as_str()))),
                None => {
                    if needs_action_field(msg_type, service_type) {
                        None
                    } else {
                        Some(route(msg_type, service_type, None))
                    }
                },
            }
        },
    }
}

/// Whether a finished request of this kind counts a function instance.
pub open spec fn counts_instance(d: Dispatch) -> bool {
    d == Dispatch::InitFunction || d == Dispatch::DeployApp
}

/// The bookkeeping after a finished request that is not a write: one more
/// function instance for a new function or a deployment, nothing else.
pub open spec fn after_dispatch(s: Service, d: Dispatch) -> Service {
    if counts_instance(d) {
        Service {
            faas: ServiceData {
                metadata: MetaData {
                    instance_count: (s.faas.metadata.instance_count + 1) as i32,
                    ..s.faas.metadata
                },
                ..s.faas
            },
            ..s
        }
    } else {
        s
    }
}

/// The bookkeeping after a finished request: a write of `total` bytes goes
/// through the block-file bookkeeping, every other request through
/// `after_dispatch`.
pub open spec fn after_request(s: Service, d: Dispatch, total: u64) -> Service {
    if d == Dispatch::StorageWrite {
        after_storage_write(s, total)
    } else {
        after_dispatch(s, d)
    }
}

/// Change of one instance count.
pub open spec fn count_change<T>(a: ServiceData<T>, b: ServiceData<T>) -> int {
    b.metadata.instance_count - a.metadata.instance_count
}

/// Whether going from `a` to `b` raised at most one instance count, and
/// that by one, and left every service's instances and dates alone.
pub open spec fn at_most_one_count(a: Service, b: Service) -> bool {
    &&& 0 <= count_change(a.paas, b.paas) <= 1
    &&& 0 <= count_change(a.storage, b.storage) <= 1
    &&& 0 <= count_change(a.faas, b.faas) <= 1
    &&& count_change(a.paas, b.paas) + count_change(a.storage, b.storage) + count_change(
        a.faas,
        b.faas,
    ) <= 1
    &&& b.paas.instances == a.paas.instances
    &&& b.storage.instances == a.storage.instances
    &&& b.faas.instances == a.faas.instances
    &&& b.paas.metadata.last_updated == a.paas.metadata.last_updated
    &&& b.storage.metadata.last_updated == a.storage.metadata.last_updated
    &&& b.faas.metadata.last_updated == a.faas.metadata.last_updated
}

/// A handled request raises at most one instance count, by one, and never
/// changes any service's instances or dates.
pub proof fn lemma_request_bookkeeping(s: Service, d: Dispatch, total: u64)
    requires
        s.faas.metadata.instance_count < i32::MAX,
        s.storage.metadata.instance_count < i32::MAX,
    ensures
        at_most_one_count(s, after_request(s, d, total)),
{
}

/// A request to create a function is always handed to the function runner,
/// whatever the `msg_type` field of its content says, or whether it has one.
pub proof fn lemma_function_init_always_dispatched(action: Option<Seq<char>>)
    ensures
        route_spec(ServiceMsgType::SERVICEINIT, ServiceType::Faas, action) == Some(
            Dispatch::InitFunction,
        ),
{
}

/// Whatever JSON content a request to create a function carries, the
/// request is handed to the function runner; only content that is not JSON
/// is refused.
pub proof fn lemma_function_init_request_dispatched(content: Seq<char>)
    ensures
        json_str_member(content, "msg_type"@) is Some ==> match json_str_member(
            content,
            "msg_type"@,
        ) {
            None => None,
            Some(a) => route_spec(ServiceMsgType::SERVICEINIT, ServiceType::Faas, a),
        } == Some(Dispatch::InitFunction),
{
}

/// The table of requests: block storage reads on `read` and writes on
/// `write`, the VM deploys on `deploy` and starts on `start`, functions are
/// created on any initialisation and updated on any update; every other
/// string does nothing, and a missing field refuses only the requests that
/// read it.
pub proof fn lemma_route_table(service_type: ServiceType, action: Option<Seq<char>>)
    ensures
        route_spec(ServiceMsgType::SERVICEINIT, ServiceType::Storage, Some("read"@)) == Some(
            Dispatch::StorageRead,
        ),
        route_spec(ServiceMsgType::SERVICEINIT, ServiceType::Storage, Some("write"@)) == Some(
            Dispatch::StorageWrite,
        ),
        route_spec(ServiceMsgType::SERVICEINIT, ServiceType::Paas, Some("deploy"@)) == Some(
            Dispatch::DeployApp,
        ),
        route_spec(ServiceMsgType::SERVICEMANAGE, ServiceType::Paas, Some("start"@)) == Some(
            Dispatch::StartVm,
        ),
        route_spec(ServiceMsgType::SERVICEUPDATE, ServiceType::Faas, action) == Some(
            Dispatch::UpdateFunction,
        ),
        service_type != ServiceType::Faas ==> route_spec(
            ServiceMsgType::SERVICEUPDATE,
            service_type,
            action,
        ) == Some(Dispatch::Nothing),
        service_type != ServiceType::Paas ==> route_spec(
            ServiceMsgType::SERVICEMANAGE,
            service_type,
            action,
        ) == Some(Dispatch::Nothing),
        action is Some && action != Some("read"@) && action != Some("write"@) ==> route_spec(
            ServiceMsgType::SERVICEINIT,
            ServiceType::Storage,
            action,
        ) == Some(Dispatch::Nothing),
        action is Some && action != Some("deploy"@) ==> route_spec(
            ServiceMsgType::SERVICEINIT,
            ServiceType::Paas,
            action,
        ) == Some(Dispatch::Nothing),
        action is Some && action != Some("start"@) ==> route_spec(
            ServiceMsgType::SERVICEMANAGE,
            ServiceType::Paas,
            action,
        ) == Some(Dispatch::Nothing),
        route_spec(ServiceMsgType::SERVICEINIT, ServiceType::Storage, None) is None,
        route_spec(ServiceMsgType::SERVICEINIT, ServiceType::Paas, None) is None,
        route_spec(ServiceMsgType::SERVICEMANAGE, ServiceType::Paas, None) is None,
{
    reveal_strlit("read");
    reveal_strlit("write");
    assert("write"@.len() != "read"@.len());
}

/// Only a new function or a deployment counts an instance, one more in the
/// function bookkeeping; every other finished request that is not a write
/// (a read among them) leaves the whole bookkeeping as it was.
pub proof fn lemma_only_new_functions_count(s: Service, d: Dispatch, total: u64)
    ensures
        d != Dispatch::InitFunction && d != Dispatch::DeployApp ==> after_dispatch(s, d) == s,
        d != Dispatch::InitFunction && d != Dispatch::DeployApp && d != Dispatch::StorageWrite
            ==> after_request(s, d, total) == s,
        (d == Dispatch::InitFunction || d == Dispatch::DeployApp)
            && s.faas.metadata.instance_count < i32::MAX ==> {
            &&& after_dispatch(s, d).faas.metadata.instance_count == s.faas.metadata.instance_count
                + 1
            &&& after_dispatch(s, d).faas.metadata.last_updated == s.faas.metadata.last_updated
            &&& after_dispatch(s, d).faas.metadata.current_block_offset
                == s.faas.metadata.current_block_offset
            &&& after_dispatch(s, d).faas.instances == s.faas.instances
            &&& after_dispatch(s, d).storage == s.storage
            &&& after_dispatch(s, d).paas == s.paas
        },
{
}

impl Service {
    /// Records a finished request: a new function or a deployment counts
    /// one more instance in the function bookkeeping; nothing else changes.
    pub fn record_dispatch(&mut self, d: Dispatch)
        requires
            counts_instance(d) ==> old(self).faas.metadata.instance_count < i32::MAX,
        ensures
            *final(self) == after_dispatch(*old(self), d),
    {
        match d {
            Dispatch::InitFunction | Dispatch::DeployApp => {
                self.faas.metadata.instance_count = self.faas.metadata.instance_count + 1;
            },
            _ => {},
        }
    }
}

} // verus!
