//! The entry points of the enclave: each call is armed, validated, executed
//! outside this library, disarmed and turned into one tagged result.

use vstd::prelude::*;
use crate::error::{ErrorKind, InvalidMemoryAccess};
use crate::memory::{ForeignSlice, MemoryRegion, PointerValidator};
use crate::oom::{OomGuard, OomState};
use crate::registry::{recovered_bytes, BufferRegistry, EnclaveBuffer};
use crate::shield::{classify_fault, fault_kind, settled_gas, Execution};

verus! {

/// The number of bytes of the host's gas counter.
pub const GAS_COUNTER_SIZE: usize = 8;

/// The entry point that a result belongs to.
#[derive(Clone, Copy, Debug, PartialEq, Eq, Structural)]
pub enum CallKind {
    Init,
    Handle,
    Query,
    HealthCheck,
}

/// How a call ended.
#[derive(Debug, PartialEq, Eq)]
pub enum CallOutcome {
    Success { payload: Vec<u8>, gas_used: u64 },
    Failure { err: ErrorKind },
}

/// The tagged result that the host receives.
#[derive(Debug, PartialEq, Eq)]
pub struct CallResult {
    pub kind: CallKind,
    pub outcome: CallOutcome,
}

impl CallResult {
    /// The result is the success of a call of `kind` with this payload and
    /// this final gas count.
    pub open spec fn is_success(self, kind: CallKind, payload: Seq<u8>, gas_used: u64) -> bool {
        &&& self.kind == kind
        &&& self.outcome matches CallOutcome::Success { payload: p, gas_used: g }
        &&& p@ == payload
        &&& g == gas_used
    }

    /// The result is the failure of a call of `kind` with this error.
    pub open spec fn is_failure(self, kind: CallKind, err: ErrorKind) -> bool {
        &&& self.kind == kind
        &&& self.outcome matches CallOutcome::Failure { err: e }
        &&& e == err
    }

    pub fn success(kind: CallKind, payload: Vec<u8>, gas_used: u64) -> (result: CallResult)
        ensures
            result.is_success(kind, payload@, gas_used),
    {
        CallResult { kind, outcome: CallOutcome::Success { payload, gas_used } }
    }

    pub fn failure(kind: CallKind, err: ErrorKind) -> (result: CallResult)
        ensures
            result.is_failure(kind, err),
    {
        CallResult { kind, outcome: CallOutcome::Failure { err } }
    }
}

/// What the host asks for, before any of it is checked.
#[derive(Clone, Copy, Debug, PartialEq, Eq, Structural)]
pub struct CallRequest {
    pub kind: CallKind,
    pub gas_limit: u64,
    /// The address of the host's gas counter.
    pub used_gas: usize,
    pub contract: MemoryRegion,
    pub env: Option<MemoryRegion>,
    pub msg: MemoryRegion,
    pub sig_info: Option<MemoryRegion>,
}

/// A request whose every region the validator admitted.
#[derive(Clone, Copy, Debug, PartialEq, Eq, Structural)]
pub struct ValidatedCall {
    pub kind: CallKind,
    pub gas_limit: u64,
    pub used_gas: ForeignSlice,
    pub contract: ForeignSlice,
    pub env: Option<ForeignSlice>,
    pub msg: ForeignSlice,
    pub sig_info: Option<ForeignSlice>,
}

/// The region `slice` stands for `region`, admitted for reading.
pub open spec fn readable_as(slice: ForeignSlice, region: MemoryRegion) -> bool {
    slice.region() == region && !slice.writable()
}

/// The optional region was admitted for reading where there is one.
pub open spec fn readable_as_optional(
    slice: Option<ForeignSlice>,
    region: Option<MemoryRegion>,
) -> bool {
    match region {
        Some(r) => slice is Some && readable_as(slice.unwrap(), r),
        None => slice is None,
    }
}

/// The validator admits the optional region, or there is none.
pub open spec fn accepts_optional(validator: PointerValidator, region: Option<MemoryRegion>) -> bool {
    match region {
        Some(r) => validator.accepts(r.start, r.len),
        None => true,
    }
}

impl CallRequest {
    /// The region that the validator refuses first, in the order in which
    /// the regions are checked: the gas counter, the environment, the
    /// message, the contract code, the signature data.
    pub open spec fn first_refused(self, validator: PointerValidator) -> Option<MemoryRegion> {
        if !validator.accepts(self.used_gas, GAS_COUNTER_SIZE) {
            Some(MemoryRegion { start: self.used_gas, len: GAS_COUNTER_SIZE })
        } else if !accepts_optional(validator, self.env) {
            self.env
        } else if !validator.accepts(self.msg.start, self.msg.len) {
            Some(self.msg)
        } else if !validator.accepts(self.contract.start, self.contract.len) {
            Some(self.contract)
        } else if !accepts_optional(validator, self.sig_info) {
            self.sig_info
        } else {
            None
        }
    }

    /// The validator admits every region of the request.
    pub open spec fn accepted_by(self, validator: PointerValidator) -> bool {
        &&& validator.accepts(self.used_gas, GAS_COUNTER_SIZE)
        &&& accepts_optional(validator, self.env)
        &&& validator.accepts(self.msg.start, self.msg.len)
        &&& validator.accepts(self.contract.start, self.contract.len)
        &&& accepts_optional(validator, self.sig_info)
    }

    /// `call` is this request with each region admitted: the gas counter
    /// for writing, the others for reading.
    pub open spec fn validated_as(self, call: ValidatedCall) -> bool {
        &&& call.kind == self.kind
        &&& call.gas_limit == self.gas_limit
        &&& call.used_gas.region() == (MemoryRegion {
            start: self.used_gas,
            len: GAS_COUNTER_SIZE,
        })
        &&& call.used_gas.writable()
        &&& readable_as(call.contract, self.contract)
        &&& readable_as_optional(call.env, self.env)
        &&& readable_as(call.msg, self.msg)
        &&& readable_as_optional(call.sig_info, self.sig_info)
    }
}

fn validate_optional(validator: &PointerValidator, region: Option<MemoryRegion>) -> (outcome:
    Result<Option<ForeignSlice>, InvalidMemoryAccess>)
    ensures
        outcome is Ok <==> accepts_optional(*validator, region),
        outcome is Ok ==> readable_as_optional(outcome.unwrap(), region),
        outcome is Err ==> region is Some && outcome.unwrap_err() == (InvalidMemoryAccess {
            start: region.unwrap().start,
            len: region.unwrap().len,
        }),
{
    match region {
        None => Ok(None),
        Some(r) => match validator.validate_readable(r.start, r.len) {
            Ok(slice) => Ok(Some(slice)),
            Err(refused) => Err(refused),
        },
    }
}

/// Checks every region of a request, in a fixed order, and stops at the
/// first that is refused.
pub fn validate_call(validator: &PointerValidator, request: &CallRequest) -> (outcome: Result<
    ValidatedCall,
    InvalidMemoryAccess,
>)
    ensures
        outcome is Ok <==> request.accepted_by(*validator),
        outcome is Ok ==> request.validated_as(outcome.unwrap()),
        outcome is Err ==> request.first_refused(*validator) == Some(
            MemoryRegion { start: outcome.unwrap_err().start, len: outcome.unwrap_err().len },
        ),
{
    let used_gas = match validator.validate_writable(request.used_gas, GAS_COUNTER_SIZE) {
        Ok(slice) => slice,
        Err(refused) => {
            return Err(refused);
        },
    };
    let env = match validate_optional(validator, request.env) {
        Ok(slice) => slice,
        Err(refused) => {
            return Err(refused);
        },
    };
    let msg = match validator.validate_readable(request.msg.start, request.msg.len) {
        Ok(slice) => slice,
        Err(refused) => {
            return Err(refused);
        },
    };
    let contract = match validator.validate_readable(request.contract.start, request.contract.len) {
        Ok(slice) => slice,
        Err(refused) => {
            return Err(refused);
        },
    };
    let sig_info = match validate_optional(validator, request.sig_info) {
        Ok(slice) => slice,
        Err(refused) => {
            return Err(refused);
        },
    };
    Ok(
        ValidatedCall {
            kind: request.kind,
            gas_limit: request.gas_limit,
            used_gas,
            contract,
            env,
            msg,
            sig_info,
        },
    )
}

/// What the gateway decides on a request before anything runs.
#[derive(Debug, PartialEq, Eq)]
pub enum Admission {
    /// Every region was admitted: the call is to be executed.
    Execute(ValidatedCall),
    /// The call ends here, with this result.
    Reject(CallResult),
}

/// `admission` is what arming and validation make of `request`, where the
/// guard went from `before` to `after` and `granted` is the allocator's
/// answer to the request for the reserve.
pub open spec fn begins_call(
    before: OomState,
    after: OomState,
    validator: PointerValidator,
    request: CallRequest,
    admission: Admission,
    granted: bool,
) -> bool {
    let (armed_state, armed) = before.register(granted);
    &&& after == armed_state
    &&& match admission {
        Admission::Execute(call) => armed is Ok && request.accepted_by(validator)
            && request.validated_as(call),
        Admission::Reject(result) => if armed is Err {
            result.is_failure(request.kind, ErrorKind::OutOfMemory)
        } else {
            !request.accepted_by(validator) && result.is_failure(
                request.kind,
                ErrorKind::FailedFunctionCall,
            )
        },
    }
}

/// `result` is what a call emits for `execution`, where `restored` is what
/// replenishing the reserve gave and the guard went from `before` to
/// `after`. A failed replenishing is the call's failure, whatever the
/// execution gave; else a completed execution gives the interpreter's own
/// result, and an abort is classified by the guard's flag, which is
/// cleared.
pub open spec fn emits(
    before: OomState,
    after: OomState,
    kind: CallKind,
    restored: Result<(), ErrorKind>,
    execution: Execution,
    result: CallResult,
) -> bool {
    match restored {
        Err(err) => after == before && result.is_failure(kind, err),
        Ok(_) => match execution {
            Execution::Completed { result: Ok(payload), gas_used } => after == before
                && result.is_success(kind, payload@, gas_used),
            Execution::Completed { result: Err(err), .. } => after == before && result.is_failure(
                kind,
                err,
            ),
            Execution::Aborted => after == before.cleared() && result.is_failure(
                kind,
                fault_kind(before.oom_happened),
            ),
        },
    }
}

/// `result` is what disarming makes of `execution`, where the guard went
/// from `before` to `after` and `granted` is the allocator's answer to the
/// request for the reserve.
pub open spec fn settles(
    before: OomState,
    after: OomState,
    kind: CallKind,
    execution: Execution,
    result: CallResult,
    granted: bool,
) -> bool {
    let (restored_state, restored) = before.restore(granted);
    emits(restored_state, after, kind, restored, execution, result)
}

/// The last step of a call: writes the gas count back and turns what the
/// execution gave, and what replenishing the reserve gave, into the call's
/// result. After an abort the gas count is half the limit, whatever was
/// used before.
pub fn emit(
    guard: &mut OomGuard,
    call: &ValidatedCall,
    used_gas: &mut u64,
    restored: Result<(), ErrorKind>,
    execution: Execution,
) -> (result: CallResult)
    ensures
        *final(used_gas) == settled_gas(call.gas_limit, execution),
        emits(old(guard)@, final(guard)@, call.kind, restored, execution, result),
{
    match execution {
        Execution::Completed { result, gas_used } => {
            *used_gas = gas_used;
            match restored {
                Err(err) => CallResult::failure(call.kind, err),
                Ok(_) => match result {
                    Ok(payload) => CallResult::success(call.kind, payload, gas_used),
                    Err(err) => CallResult::failure(call.kind, err),
                },
            }
        },
        Execution::Aborted => {
            *used_gas = call.gas_limit / 2;
            match restored {
                Err(err) => CallResult::failure(call.kind, err),
                Ok(_) => CallResult::failure(call.kind, classify_fault(guard)),
            }
        },
    }
}

/// The state of one enclave instance that its calls share.
pub struct Gateway {
    pub validator: PointerValidator,
    pub guard: OomGuard,
    pub registry: BufferRegistry,
}

impl Gateway {
    /// A gateway with no buffer outstanding and the reserve not yet in place.
    pub fn new(validator: PointerValidator, margin_size: usize) -> (gateway: Gateway)
        ensures
            gateway.validator == validator,
            gateway.guard@ == (OomState { margin_size, held: false, oom_happened: false }),
            gateway.registry@ == Map::<u64, Seq<u8>>::empty(),
            !gateway.registry.spent(),
    {
        Gateway { validator, guard: OomGuard::new(margin_size), registry: BufferRegistry::new() }
    }

    /// Arms the guard and validates the request. The call is to be executed
    /// only where both succeed; where arming fails nothing else happens, and
    /// where a region is refused the guard is left armed and whole.
    pub fn begin_call(&mut self, request: &CallRequest) -> (admission: Admission)
        ensures
            final(self).validator == old(self).validator,
            final(self).registry == old(self).registry,
            exists|granted: bool|
                begins_call(
                    old(self).guard@,
                    final(self).guard@,
                    old(self).validator,
                    *request,
                    admission,
                    granted,
                ),
            old(self).guard@.held ==> (admission is Execute <==> request.accepted_by(
                old(self).validator,
            )),
    {
        let ghost before = self.guard@;
        let armed = self.guard.register();
        let ghost granted = choose|granted: bool|
            self.guard@ == before.register(granted).0 && armed == before.register(granted).1;
        if let Err(err) = armed {
            let rejected = Admission::Reject(CallResult::failure(request.kind, err));
            assert(begins_call(before, self.guard@, self.validator, *request, rejected, granted));
            return rejected;
        }
        let admission = match validate_call(&self.validator, request) {
            Ok(call) => Admission::Execute(call),
            Err(refused) => {
                let err = match self.guard.restore() {
                    Ok(_) => refused.to_error_kind(),
                    Err(err) => err,
                };
                Admission::Reject(CallResult::failure(request.kind, err))
            },
        };
        assert(begins_call(before, self.guard@, self.validator, *request, admission, granted));
        admission
    }

    /// Ends an admitted call: replenishes the reserve, then emits the call's
    /// result. Where the reserve cannot be replenished the call fails,
    /// whatever the execution gave.
    pub fn settle(&mut self, call: &ValidatedCall, used_gas: &mut u64, execution: Execution) -> (result:
        CallResult)
        ensures
            final(self).validator == old(self).validator,
            final(self).registry == old(self).registry,
            *final(used_gas) == settled_gas(call.gas_limit, execution),
            exists|granted: bool|
                settles(
                    old(self).guard@,
                    final(self).guard@,
                    call.kind,
                    execution,
                    result,
                    granted,
                ),
            old(self).guard@.held ==> settles(
                old(self).guard@,
                final(self).guard@,
                call.kind,
                execution,
                result,
                true,
            ),
    {
        let ghost before = self.guard@;
        let restored = self.guard.restore();
        let ghost granted = choose|granted: bool|
            self.guard@ == before.restore(granted).0 && restored == before.restore(granted).1;
        let result = emit(&mut self.guard, call, used_gas, restored, execution);
        assert(settles(before, self.guard@, call.kind, execution, result, granted));
        result
    }
}

/// `handle` is what storing `bytes` for the host gives, where the guard
/// went from `before` to `after`, the registry from `live` to `left`, and
/// `granted` is the allocator's answer to the request for the reserve. The
/// bytes are stored, under a fresh handle, only where they are as many as
/// the region they were read from holds, the registry has a handle to give
/// and the reserve is whole afterwards; else nothing is stored and the
/// handle is null.
pub open spec fn stores(
    before: OomState,
    after: OomState,
    live: Map<u64, Seq<u8>>,
    left: Map<u64, Seq<u8>>,
    spent: bool,
    source: ForeignSlice,
    bytes: Seq<u8>,
    handle: EnclaveBuffer,
    granted: bool,
) -> bool {
    let (restored_state, restored) = before.restore(granted);
    &&& after == restored_state
    &&& if bytes.len() == source.region().len && !spent && restored is Ok {
        handle.tag != 0 && !live.contains_key(handle.tag) && left == live.insert(handle.tag, bytes)
    } else {
        handle.tag == 0 && left == live
    }
}

/// `outcome` is what arming and validation make of a request to copy the
/// bytes at `region`, where the guard went from `before` to `after` and
/// `granted` is the allocator's answer to the request for the reserve.
pub open spec fn begins_allocation(
    before: OomState,
    after: OomState,
    validator: PointerValidator,
    region: MemoryRegion,
    outcome: Result<ForeignSlice, EnclaveBuffer>,
    granted: bool,
) -> bool {
    let (armed_state, armed) = before.register(granted);
    &&& after == armed_state
    &&& match outcome {
        Ok(slice) => armed is Ok && validator.accepts(region.start, region.len) && readable_as(
            slice,
            region,
        ),
        Err(handle) => handle.tag == 0 && (armed is Err || !validator.accepts(
            region.start,
            region.len,
        )),
    }
}

/// The request that an instantiation or a state-changing call makes of its
/// arguments.
pub open spec fn full_request(
    kind: CallKind,
    gas_limit: u64,
    used_gas: usize,
    contract: usize,
    contract_len: usize,
    env: usize,
    env_len: usize,
    msg: usize,
    msg_len: usize,
    sig_info: usize,
    sig_info_len: usize,
) -> CallRequest {
    CallRequest {
        kind,
        gas_limit,
        used_gas,
        contract: MemoryRegion { start: contract, len: contract_len },
        env: Some(MemoryRegion { start: env, len: env_len }),
        msg: MemoryRegion { start: msg, len: msg_len },
        sig_info: Some(MemoryRegion { start: sig_info, len: sig_info_len }),
    }
}

/// The request that a query makes of its arguments: it has no environment
/// and no signature data.
pub open spec fn query_request(
    gas_limit: u64,
    used_gas: usize,
    contract: usize,
    contract_len: usize,
    msg: usize,
    msg_len: usize,
) -> CallRequest {
    CallRequest {
        kind: CallKind::Query,
        gas_limit,
        used_gas,
        contract: MemoryRegion { start: contract, len: contract_len },
        env: None,
        msg: MemoryRegion { start: msg, len: msg_len },
        sig_info: None,
    }
}

/// Begins the instantiation of a contract: arms the guard and validates the
/// gas counter, the environment, the message, the contract code and the
/// signature data.
pub fn ecall_init(
    gateway: &mut Gateway,
    gas_limit: u64,
    used_gas: usize,
    contract: usize,
    contract_len: usize,
    env: usize,
    env_len: usize,
    msg: usize,
    msg_len: usize,
    sig_info: usize,
    sig_info_len: usize,
) -> (admission: Admission)
    ensures
        final(gateway).validator == old(gateway).validator,
        final(gateway).registry == old(gateway).registry,
        exists|granted: bool|
            begins_call(
                old(gateway).guard@,
                final(gateway).guard@,
                old(gateway).validator,
                full_request(
                    CallKind::Init,
                    gas_limit,
                    used_gas,
                    contract,
                    contract_len,
                    env,
                    env_len,
                    msg,
                    msg_len,
                    sig_info,
                    sig_info_len,
                ),
                admission,
                granted,
            ),
        old(gateway).guard@.held ==> (admission is Execute <==> full_request(
            CallKind::Init,
            gas_limit,
            used_gas,
            contract,
            contract_len,
            env,
            env_len,
            msg,
            msg_len,
            sig_info,
            sig_info_len,
        ).accepted_by(old(gateway).validator)),
{
    let request = CallRequest {
        kind: CallKind::Init,
        gas_limit,
        used_gas,
        contract: MemoryRegion { start: contract, len: contract_len },
        env: Some(MemoryRegion { start: env, len: env_len }),
        msg: MemoryRegion { start: msg, len: msg_len },
        sig_info: Some(MemoryRegion { start: sig_info, len: sig_info_len }),
    };
    gateway.begin_call(&request)
}

/// Begins the execution of a state-changing call: arms the guard and
/// validates the gas counter, the environment, the message, the contract
/// code and the signature data.
pub fn ecall_handle(
    gateway: &mut Gateway,
    gas_limit: u64,
    used_gas: usize,
    contract: usize,
    contract_len: usize,
    env: usize,
    env_len: usize,
    msg: usize,
    msg_len: usize,
    sig_info: usize,
    sig_info_len: usize,
) -> (admission: Admission)
    ensures
        final(gateway).validator == old(gateway).validator,
        final(gateway).registry == old(gateway).registry,
        exists|granted: bool|
            begins_call(
                old(gateway).guard@,
                final(gateway).guard@,
                old(gateway).validator,
                full_request(
                    CallKind::Handle,
                    gas_limit,
                    used_gas,
                    contract,
                    contract_len,
                    env,
                    env_len,
                    msg,
                    msg_len,
                    sig_info,
                    sig_info_len,
                ),
                admission,
                granted,
            ),
        old(gateway).guard@.held ==> (admission is Execute <==> full_request(
            CallKind::Handle,
            gas_limit,
            used_gas,
            contract,
            contract_len,
            env,
            env_len,
            msg,
            msg_len,
            sig_info,
            sig_info_len,
        ).accepted_by(old(gateway).validator)),
{
    let request = CallRequest {
        kind: CallKind::Handle,
        gas_limit,
        used_gas,
        contract: MemoryRegion { start: contract, len: contract_len },
        env: Some(MemoryRegion { start: env, len: env_len }),
        msg: MemoryRegion { start: msg, len: msg_len },
        sig_info: Some(MemoryRegion { start: sig_info, len: sig_info_len }),
    };
    gateway.begin_call(&request)
}

/// Begins a read-only call: arms the guard and validates the gas counter,
/// the message and the contract code.
pub fn ecall_query(
    gateway: &mut Gateway,
    gas_limit: u64,
    used_gas: usize,
    contract: usize,
    contract_len: usize,
    msg: usize,
    msg_len: usize,
) -> (admission: Admission)
    ensures
        final(gateway).validator == old(gateway).validator,
        final(gateway).registry == old(gateway).registry,
        exists|granted: bool|
            begins_call(
                old(gateway).guard@,
                final(gateway).guard@,
                old(gateway).validator,
                query_request(gas_limit, used_gas, contract, contract_len, msg, msg_len),
                admission,
                granted,
            ),
        old(gateway).guard@.held ==> (admission is Execute <==> query_request(
            gas_limit,
            used_gas,
            contract,
            contract_len,
            msg,
            msg_len,
        ).accepted_by(old(gateway).validator)),
{
    let request = CallRequest {
        kind: CallKind::Query,
        gas_limit,
        used_gas,
        contract: MemoryRegion { start: contract, len: contract_len },
        env: None,
        msg: MemoryRegion { start: msg, len: msg_len },
        sig_info: None,
    };
    gateway.begin_call(&request)
}

/// The liveness probe: it succeeds, with nothing to carry, and has no state
/// to read or change.
pub fn ecall_health_check() -> (result: CallResult)
    ensures
        result.is_success(CallKind::HealthCheck, Seq::<u8>::empty(), 0),
{
    CallResult::success(CallKind::HealthCheck, Vec::new(), 0)
}

/// Begins the allocation of a buffer for the host: arms the guard and
/// validates the region that the bytes are to be read from. The null handle
/// comes back where the guard cannot be armed or the region is refused.
pub fn ecall_allocate(gateway: &mut Gateway, buffer: usize, length: usize) -> (outcome: Result<
    ForeignSlice,
    EnclaveBuffer,
>)
    ensures
        final(gateway).validator == old(gateway).validator,
        final(gateway).registry == old(gateway).registry,
        exists|granted: bool|
            begins_allocation(
                old(gateway).guard@,
                final(gateway).guard@,
                old(gateway).validator,
                MemoryRegion { start: buffer, len: length },
                outcome,
                granted,
            ),
        old(gateway).guard@.held ==> (outcome is Ok <==> old(gateway).validator.accepts(
            buffer,
            length,
        )),
{
    let ghost before = gateway.guard@;
    let armed = gateway.guard.register();
    let ghost granted = choose|granted: bool|
        gateway.guard@ == before.register(granted).0 && armed == before.register(granted).1;
    if armed.is_err() {
        let outcome = Err(EnclaveBuffer::null());
        assert(begins_allocation(
            before,
            gateway.guard@,
            gateway.validator,
            MemoryRegion { start: buffer, len: length },
            outcome,
            granted,
        ));
        return outcome;
    }
    let outcome = match gateway.validator.validate_readable(buffer, length) {
        Ok(slice) => Ok(slice),
        Err(_) => {
            let _ = gateway.guard.restore();
            Err(EnclaveBuffer::null())
        },
    };
    assert(begins_allocation(
        before,
        gateway.guard@,
        gateway.validator,
        MemoryRegion { start: buffer, len: length },
        outcome,
        granted,
    ));
    outcome
}

/// Ends the allocation of a buffer for the host: copies the bytes that were
/// read from the validated region into a buffer of the enclave, registers
/// its handle and replenishes the reserve.
pub fn store_buffer(gateway: &mut Gateway, source: &ForeignSlice, bytes: &[u8]) -> (handle:
    EnclaveBuffer)
    ensures
        final(gateway).validator == old(gateway).validator,
        exists|granted: bool|
            stores(
                old(gateway).guard@,
                final(gateway).guard@,
                old(gateway).registry@,
                final(gateway).registry@,
                old(gateway).registry.spent(),
                *source,
                bytes@,
                handle,
                granted,
            ),
{
    let ghost before = gateway.guard@;
    let ghost live = gateway.registry@;
    let handle = if bytes.len() == source.len() {
        gateway.registry.allocate(bytes)
    } else {
        EnclaveBuffer::null()
    };
    let restored = gateway.guard.restore();
    let ghost granted = choose|granted: bool|
        gateway.guard@ == before.restore(granted).0 && restored == before.restore(granted).1;
    let handle = if restored.is_err() && !handle.is_null() {
        let _ = gateway.registry.recover(handle);
        assert(live.insert(handle.tag, bytes@).remove(handle.tag) =~= live);
        EnclaveBuffer::null()
    } else {
        handle
    };
    assert(stores(
        before,
        gateway.guard@,
        live,
        gateway.registry@,
        old(gateway).registry.spent(),
        *source,
        bytes@,
        handle,
        granted,
    ));
    handle
}

/// `handle` is what a whole allocation gives for `bytes` presented at
/// `buffer`, where the guard went from `before` to `after`, the registry
/// from `live` to `left`, and `granted` is the allocator's answer to the
/// request for the reserve. The bytes are stored, under a fresh handle,
/// where the guard was armed, the region was admitted and the registry had
/// a handle to give; else nothing is stored and the handle is null.
pub open spec fn allocates(
    before: OomState,
    after: OomState,
    validator: PointerValidator,
    live: Map<u64, Seq<u8>>,
    left: Map<u64, Seq<u8>>,
    spent: bool,
    buffer: usize,
    bytes: Seq<u8>,
    handle: EnclaveBuffer,
    granted: bool,
) -> bool {
    let (armed_state, armed) = before.register(granted);
    &&& after == armed_state
    &&& bytes.len() <= usize::MAX
    &&& if armed is Ok && validator.accepts(buffer, bytes.len() as usize) && !spent {
        handle.tag != 0 && !live.contains_key(handle.tag) && left == live.insert(handle.tag, bytes)
    } else {
        handle.tag == 0 && left == live
    }
}

/// Allocates a buffer for bytes that the caller holds already: arms the
/// guard, validates the region that the bytes stand at, stores a copy and
/// replenishes the reserve.
pub fn allocate(gateway: &mut Gateway, buffer: usize, bytes: &[u8]) -> (handle: EnclaveBuffer)
    ensures
        final(gateway).validator == old(gateway).validator,
        exists|granted: bool|
            allocates(
                old(gateway).guard@,
                final(gateway).guard@,
                old(gateway).validator,
                old(gateway).registry@,
                final(gateway).registry@,
                old(gateway).registry.spent(),
                buffer,
                bytes@,
                handle,
                granted,
            ),
{
    let ghost before = gateway.guard@;
    let ghost live = gateway.registry@;
    let ghost spent = gateway.registry.spent();
    let begun = ecall_allocate(gateway, buffer, bytes.len());
    let ghost granted = choose|granted: bool|
        begins_allocation(
            before,
            gateway.guard@,
            gateway.validator,
            MemoryRegion { start: buffer, len: bytes.len() },
            begun,
            granted,
        );
    let handle = match begun {
        Ok(source) => store_buffer(gateway, &source, bytes),
        Err(null) => null,
    };
    assert(allocates(
        before,
        gateway.guard@,
        gateway.validator,
        live,
        gateway.registry@,
        spent,
        buffer,
        bytes@,
        handle,
        granted,
    ));
    handle
}

/// Redeems a handle that the host presents: the bytes of the buffer it
/// names, which then is outstanding no more; nothing for the null handle, a
/// forged handle or one redeemed before.
pub fn recover_buffer(gateway: &mut Gateway, ptr: EnclaveBuffer) -> (bytes: Option<Vec<u8>>)
    ensures
        final(gateway).validator == old(gateway).validator,
        final(gateway).guard == old(gateway).guard,
        bytes is Some <==> old(gateway).registry@.contains_key(ptr.tag),
        bytes is Some ==> Some(bytes.unwrap()@) == recovered_bytes(
            old(gateway).registry@,
            ptr.tag,
        ),
        ptr.tag == 0 ==> bytes is None,
        final(gateway).registry@ == old(gateway).registry@.remove(ptr.tag),
        final(gateway).registry.spent() == old(gateway).registry.spent(),
{
    gateway.registry.recover(ptr)
}

/// A call that aborted after memory ran out is reported as out of memory,
/// and where the reserve is replenished the guard is whole and its flag
/// clear again: the next call finds the enclave usable.
pub proof fn lemma_exhaustion_is_reported_and_repaired(
    before: OomState,
    after: OomState,
    kind: CallKind,
    result: CallResult,
)
    requires
        settles(before.exhausted(), after, kind, Execution::Aborted, result, true),
    ensures
        result.is_failure(kind, ErrorKind::OutOfMemory),
        after.held,
        !after.oom_happened,
        after.margin_size == before.margin_size,
{
}

/// Where the reserve cannot be replenished the call fails as out of memory,
/// whatever its execution gave.
pub proof fn lemma_failed_restore_overrides(
    before: OomState,
    after: OomState,
    kind: CallKind,
    execution: Execution,
    result: CallResult,
    granted: bool,
)
    requires
        settles(before, after, kind, execution, result, granted),
        before.restore(granted).1 is Err,
    ensures
        result.is_failure(kind, ErrorKind::OutOfMemory),
        after == before,
{
}

/// However a call begins, it is executed only with the guard armed, and a
/// call that was refused for one of its regions leaves the guard armed too.
pub proof fn lemma_begun_call_is_armed(
    before: OomState,
    after: OomState,
    validator: PointerValidator,
    request: CallRequest,
    admission: Admission,
    granted: bool,
)
    requires
        begins_call(before, after, validator, request, admission, granted),
    ensures
        admission is Execute ==> after.held && !after.oom_happened,
        admission matches Admission::Reject(result) && result.is_failure(
            request.kind,
            ErrorKind::FailedFunctionCall,
        ) ==> after.held,
{
}

} // verus!
