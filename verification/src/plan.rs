//! The layout of a server: which devices it uses, how many threads it spawns
//! and how large its channels are.

use vstd::prelude::*;
use crate::settings::BatchSizes;

verus! {

/// The port a server listens on when none is given.
pub const DEFAULT_PORT: u16 = 63105;

/// The number of settings or graph messages that may wait for one thread.
pub const MAILBOX_CAPACITY: usize = 1;

/// The port to listen on.
pub fn server_port(requested: Option<u16>) -> (r: u16)
    ensures
        r == (match requested {
            Some(p) => p,
            None => DEFAULT_PORT,
        }),
{
    match requested {
        Some(p) => p,
        None => DEFAULT_PORT,
    }
}

/// Why a server cannot be laid out.
#[derive(Clone, Copy, Debug, PartialEq, Eq, Structural)]
pub enum PlanError {
    /// There is no device to run on.
    NoDevices,
    /// The number of CPU threads does not fit in a `usize`.
    TooManyThreads,
    /// Twice the GPU batch size does not fit in a `usize`.
    BatchTooLarge,
}

/// The devices a server runs on: those asked for, or all that were
/// discovered if none was asked for.
pub open spec fn chosen_devices(requested: Seq<i32>, discovered: Seq<i32>) -> Seq<i32> {
    if requested.len() == 0 {
        discovered
    } else {
        requested
    }
}

/// Chooses the devices to run on. Fails if there is none.
pub fn choose_devices(requested: Vec<i32>, discovered: Vec<i32>) -> (r: Result<Vec<i32>, PlanError>)
    ensures
        match r {
            Ok(devices) => devices@ == chosen_devices(requested@, discovered@) && devices@.len() > 0,
            Err(e) => e == PlanError::NoDevices && chosen_devices(requested@, discovered@).len() == 0,
        },
{
    let devices = if requested.len() == 0 {
        discovered
    } else {
        requested
    };
    if devices.len() == 0 {
        Err(PlanError::NoDevices)
    } else {
        Ok(devices)
    }
}

/// The threads and channels of a server.
#[derive(Clone, Copy, Debug, PartialEq, Eq, Structural)]
pub struct ServerPlan {
    /// The number of devices, each with one evaluation request channel.
    pub device_count: usize,
    /// The number of CPU worker threads bound to each device.
    pub cpu_threads_per_device: usize,
    /// The number of CPU worker threads in all.
    pub total_cpu_threads: usize,
    /// The capacity of each device's evaluation request channel.
    pub request_capacity: usize,
    /// The capacity of the channel on which finished games reach the
    /// collector.
    pub update_capacity: usize,
    /// The capacity of each worker's settings channel.
    pub settings_capacity: usize,
    /// The capacity of each inference thread's graph channel.
    pub graph_capacity: usize,
}

/// The layout for `device_count` devices, or the reason why there is none.
/// Every device gets a request channel that holds two GPU batches and
/// `cpu_threads_per_device` workers; the update channel holds one game for
/// each worker; settings and graph channels hold one message.
pub open spec fn plan_spec(sizes: BatchSizes, cpu_threads_per_device: usize, device_count: usize) -> Result<
    ServerPlan,
    PlanError,
> {
    if device_count == 0 {
        Err(PlanError::NoDevices)
    } else if cpu_threads_per_device * device_count > usize::MAX {
        Err(PlanError::TooManyThreads)
    } else if sizes.gpu_batch_size * 2 > usize::MAX {
        Err(PlanError::BatchTooLarge)
    } else {
        Ok(
            ServerPlan {
                device_count,
                cpu_threads_per_device,
                total_cpu_threads: (cpu_threads_per_device * device_count) as usize,
                request_capacity: (sizes.gpu_batch_size * 2) as usize,
                update_capacity: (cpu_threads_per_device * device_count) as usize,
                settings_capacity: MAILBOX_CAPACITY,
                graph_capacity: MAILBOX_CAPACITY,
            },
        )
    }
}

/// Lays out the threads and channels of a server.
pub fn plan_server(sizes: BatchSizes, cpu_threads_per_device: usize, device_count: usize) -> (r: Result<
    ServerPlan,
    PlanError,
>)
    ensures
        r == plan_spec(sizes, cpu_threads_per_device, device_count),
{
    if device_count == 0 {
        return Err(PlanError::NoDevices);
    }
    let total_cpu_threads = match cpu_threads_per_device.checked_mul(device_count) {
        Some(n) => n,
        None => {
            return Err(PlanError::TooManyThreads);
        },
    };
    let request_capacity = match sizes.gpu_batch_size.checked_mul(2) {
        Some(n) => n,
        None => {
            return Err(PlanError::BatchTooLarge);
        },
    };
    Ok(
        ServerPlan {
            device_count,
            cpu_threads_per_device,
            total_cpu_threads,
            request_capacity,
            update_capacity: total_cpu_threads,
            settings_capacity: MAILBOX_CAPACITY,
            graph_capacity: MAILBOX_CAPACITY,
        },
    )
}

impl ServerPlan {
    /// Whether a plan is one that `plan_server` makes.
    pub open spec fn well_formed(&self) -> bool {
        &&& self.device_count > 0
        &&& self.total_cpu_threads == self.cpu_threads_per_device * self.device_count
        &&& self.update_capacity == self.total_cpu_threads
    }

    /// The device to which worker `worker` is bound, as a position among the
    /// devices: workers are numbered device by device. `None` for a number
    /// that is no worker's.
    pub open spec fn device_of_spec(&self, worker: usize) -> Option<usize> {
        if worker < self.total_cpu_threads && self.cpu_threads_per_device > 0 {
            Some((worker / self.cpu_threads_per_device) as usize)
        } else {
            None
        }
    }

    /// The position of the device to which worker `worker` is bound.
    pub fn device_of(&self, worker: usize) -> (r: Option<usize>)
        ensures
            r == self.device_of_spec(worker),
    {
        if worker < self.total_cpu_threads && self.cpu_threads_per_device > 0 {
            Some(worker / self.cpu_threads_per_device)
        } else {
            None
        }
    }
}

/// In a well-formed plan every worker is bound to one of the devices, and the
/// workers of a device are numbered without gaps.
pub proof fn lemma_worker_binding(plan: ServerPlan, worker: usize)
    requires
        plan.well_formed(),
        worker < plan.total_cpu_threads,
    ensures
        plan.device_of_spec(worker) matches Some(d) && d < plan.device_count && d
            * plan.cpu_threads_per_device <= worker < (d + 1) * plan.cpu_threads_per_device,
{
    let c = plan.cpu_threads_per_device as int;
    let w = worker as int;
    let n = plan.device_count as int;
    assert(c > 0) by (nonlinear_arith)
        requires
            0 <= w < c * n,
            c >= 0,
            n >= 0,
    ;
    let d = w / c;
    vstd::arithmetic::div_mod::lemma_fundamental_div_mod(w, c);
    vstd::arithmetic::div_mod::lemma_mod_bound(w, c);
    assert(d * c <= w < (d + 1) * c && 0 <= d) by (nonlinear_arith)
        requires
            w == c * d + w % c,
            0 <= w % c < c,
            w >= 0,
    ;
    assert(d < n) by (nonlinear_arith)
        requires
            d * c <= w,
            w < c * n,
            c > 0,
            d >= 0,
    ;
}

/// A plan that is made is well formed, and its request channels hold exactly
/// two GPU batches.
pub proof fn lemma_plan_capacities(sizes: BatchSizes, cpu_threads_per_device: usize, device_count: usize)
    requires
        plan_spec(sizes, cpu_threads_per_device, device_count).is_ok(),
    ensures
        plan_spec(sizes, cpu_threads_per_device, device_count).unwrap().well_formed(),
        plan_spec(sizes, cpu_threads_per_device, device_count).unwrap().request_capacity == 2
            * sizes.gpu_batch_size,
        plan_spec(sizes, cpu_threads_per_device, device_count).unwrap().settings_capacity == 1,
        plan_spec(sizes, cpu_threads_per_device, device_count).unwrap().graph_capacity == 1,
{
}

} // verus!
