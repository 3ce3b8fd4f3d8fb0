use vstd::prelude::*;
use crate::event_loop::{E_FAIL, ExitAction, VmExit, exit_action};

verus! {

/// Virtual processors of the partition that `Partition::new` creates.
pub const DEFAULT_PROCESSOR_COUNT: u32 = 1;
/// Extended VM exits enabled: CPUID exits (bit 0) and exception exits (bit 2).
pub const EXTENDED_VM_EXITS: u64 = 0x5;
/// Exceptions that exit to the monitor: #DF (8), #GP (13), #PF (14).
pub const EXCEPTION_EXIT_BITMAP: u64 = 0x6100;

/// A partition property to set before the partition is set up.
#[derive(Debug, Clone, Copy, PartialEq, Eq, Structural)]
pub enum PartitionProperty {
    ProcessorCount(u32),
    ExtendedVmExits(u64),
    ExceptionExitBitmap(u64),
}

/// The properties to set, in order, on a new partition.
pub open spec fn setup_properties_spec(processor_count: u32) -> Seq<PartitionProperty> {
    seq![
        PartitionProperty::ProcessorCount(processor_count),
        PartitionProperty::ExtendedVmExits(EXTENDED_VM_EXITS),
        PartitionProperty::ExceptionExitBitmap(EXCEPTION_EXIT_BITMAP),
    ]
}

/// The properties to set, in order, on a new partition with
/// `processor_count` virtual processors; the partition is set up once all
/// of them are set, and deleted as soon as one fails.
pub fn setup_properties(processor_count: u32) -> (props: Vec<PartitionProperty>)
    ensures
        props@ == setup_properties_spec(processor_count),
{
    let props = vec![
        PartitionProperty::ProcessorCount(processor_count),
        PartitionProperty::ExtendedVmExits(EXTENDED_VM_EXITS),
        PartitionProperty::ExceptionExitBitmap(EXCEPTION_EXIT_BITMAP),
    ];
    assert(props@ =~= setup_properties_spec(processor_count));
    props
}

/// The next step of partition setup.
#[derive(Debug, Clone, Copy, PartialEq, Eq, Structural)]
pub enum SetupStep {
    /// Set this property on the partition.
    SetProperty(PartitionProperty),
    /// Finish setting up the partition.
    Finalize,
    /// The last step failed: delete the partition and report that failure.
    Delete,
    /// The partition is ready.
    Ready,
}

/// The step of partition setup after `completed` steps, the last of which
/// succeeded when `last_ok`: the properties of `setup_properties_spec` in
/// order, then the finishing call; any failure deletes the partition.
pub open spec fn setup_step_spec(processor_count: u32, completed: nat, last_ok: bool) -> SetupStep {
    let props = setup_properties_spec(processor_count);
    if !last_ok {
        SetupStep::Delete
    } else if completed < props.len() {
        SetupStep::SetProperty(props[completed as int])
    } else if completed == props.len() {
        SetupStep::Finalize
    } else {
        SetupStep::Ready
    }
}

/// The step of setting up a partition with `processor_count` virtual
/// processors after `completed` steps, the last of which succeeded when
/// `last_ok` (taken as true before the first step).
pub fn next_setup_step(processor_count: u32, completed: usize, last_ok: bool) -> (step: SetupStep)
    ensures
        step == setup_step_spec(processor_count, completed as nat, last_ok),
{
    if !last_ok {
        return SetupStep::Delete;
    }
    let props = setup_properties(processor_count);
    if completed < props.len() {
        SetupStep::SetProperty(props[completed])
    } else if completed == props.len() {
        SetupStep::Finalize
    } else {
        SetupStep::Ready
    }
}

/// The partition intercepts exactly #DF, #GP and #PF, and the exit handler
/// answers every exception it intercepts with `E_FAIL`, whatever devices
/// are attached.
pub proof fn intercepted_exceptions_fail(vector: u8, error_code: u32, parameter: u64, uart: bool, virtio: bool, gdb: bool)
    requires
        vector < 64,
    ensures
        (EXCEPTION_EXIT_BITMAP & (1u64 << (vector as u64)) != 0) <==> (vector == 8 || vector == 13 || vector == 14),
        EXCEPTION_EXIT_BITMAP & (1u64 << (vector as u64)) != 0 ==> exit_action(
            VmExit::Exception { exception_type: vector, error_code, parameter }, uart, virtio, gdb,
        ) == (ExitAction::Fail { code: E_FAIL }),
{
    let v = vector as u64;
    assert(v < 64 ==> ((0x6100u64 & (1u64 << v) != 0) <==> (v == 8 || v == 13 || v == 14))) by (bit_vector);
}

} // verus!
