//! Devices: opening the first one, and its attributes.
//!
//! Handles are the addresses that the verbs hand out; 0 stands for none.

use vstd::prelude::*;
use vstd::string::*;

use crate::error::{ErrorView, RdmaError};
use crate::text;

verus! {

// ---------------------------------------------------------------------------
// Attributes
// ---------------------------------------------------------------------------
/// Device attributes queried from hardware.
#[derive(Debug)]
pub struct DeviceAttr {
    pub fw_ver: String,
    pub node_guid: u64,
    pub vendor_id: u32,
    pub vendor_part_id: u32,
    pub hw_ver: u32,
    pub max_qp: i32,
    pub max_qp_wr: i32,
    pub max_cq: i32,
    pub max_cqe: i32,
    pub max_mr: i32,
    pub max_pd: i32,
    pub max_qp_rd_atom: i32,
    pub max_sge: i32,
    pub phys_port_cnt: u8,
}

/// Port attributes queried from hardware.
#[derive(Debug, Clone, Copy, PartialEq, Eq, Structural)]
pub struct PortAttr {
    pub lid: u16,
    pub state: u32,
    pub max_mtu: u32,
    pub active_mtu: u32,
    pub port_cap_flags: u32,
    pub max_msg_sz: u32,
    pub link_layer: u8,
}

// ---------------------------------------------------------------------------
// Opening a device
// ---------------------------------------------------------------------------
/// An opened device.
#[derive(Debug)]
pub struct Context {
    /// The handle of the device.
    pub handle: u64,
    /// Cached device name.
    pub name: String,
}

impl Context {
    /// Get the device name (e.g., "mlx5_0").
    pub fn name(&self) -> (r: &str)
        ensures
            r@ == self.name@,
    {
        self.name.as_str()
    }

    /// The device attributes that a query found, from its return code.
    pub fn query_device(ret: i32, attr: DeviceAttr) -> (r: Result<DeviceAttr, RdmaError>)
        ensures
            match r {
                Ok(a) => ret == 0 && a == attr,
                Err(e) => ret != 0 && e@ == ErrorView::HardwareError(
                    "ibv_query_device failed with return code "@ + text::signed_decimal(ret as int),
                ),
            },
    {
        if ret != 0 {
            return Err(
                RdmaError::HardwareError(
                    text::with_code("ibv_query_device failed with return code ", ret),
                ),
            );
        }
        Ok(attr)
    }

    /// The port attributes that a query found, from its return code.
    pub fn query_port(ret: i32, attr: PortAttr) -> (r: Result<PortAttr, RdmaError>)
        ensures
            match r {
                Ok(a) => ret == 0 && a == attr,
                Err(e) => ret != 0 && e@ == ErrorView::HardwareError(
                    "ibv_query_port failed with return code "@ + text::signed_decimal(ret as int),
                ),
            },
    {
        if ret != 0 {
            return Err(
                RdmaError::HardwareError(
                    text::with_code("ibv_query_port failed with return code ", ret),
                ),
            );
        }
        Ok(attr)
    }

    /// The GID (Global Identifier) that a query found, from its return code.
    pub fn query_gid(ret: i32, gid: u128) -> (r: Option<u128>)
        ensures
            r == (if ret == 0 {
                Some(gid)
            } else {
                None
            }),
    {
        if ret != 0 {
            None
        } else {
            Some(gid)
        }
    }

    /// Begins to open the first available RDMA device.
    pub fn open() -> (r: DeviceOpening)
        ensures
            r.stage == OpenStage::List,
    {
        DeviceOpening { stage: OpenStage::List }
    }
}

/// Where the opening of a device stands.
#[derive(Debug, Clone, Copy, PartialEq, Eq, Structural)]
pub enum OpenStage {
    /// The devices are to be listed.
    List,
    /// There is no device to open; the list is to be freed.
    Abandon { list: u64 },
    /// The first device of the list is to be opened.
    Open { list: u64, device: u64 },
    /// The device was opened, or not; the list is to be freed.
    Release { list: u64, device: u64, context: u64 },
    /// The opened device is to be asked for its name.
    Name { device: u64, context: u64 },
    /// The opened device has no name and is to be closed.
    Close { context: u64 },
}

/// What to do next.
#[derive(Debug, Clone, Copy, PartialEq, Eq, Structural)]
pub enum OpenAction {
    ListDevices,
    FreeList { list: u64 },
    OpenDevice { device: u64 },
    AskName { device: u64 },
    CloseDevice { context: u64 },
}

/// What came of an action.
#[derive(Debug)]
pub enum OpenEvent {
    /// The list, the number of devices in it, and the first of them.
    Listed { list: u64, count: i32, first: u64 },
    /// The list was freed, or the device closed.
    Done,
    /// The handle of the opened device.
    Opened(u64),
    /// The name of the device, if it has one.
    Named(Option<String>),
}

/// An event as a value.
pub enum OpenEventView {
    Listed { list: u64, count: i32, first: u64 },
    Done,
    Opened(u64),
    Named(Option<Seq<char>>),
}

impl View for OpenEvent {
    type V = OpenEventView;

    open spec fn view(&self) -> OpenEventView {
        match *self {
            OpenEvent::Listed { list, count, first } => OpenEventView::Listed {
                list,
                count,
                first,
            },
            OpenEvent::Done => OpenEventView::Done,
            OpenEvent::Opened(context) => OpenEventView::Opened(context),
            OpenEvent::Named(Some(name)) => OpenEventView::Named(Some(name@)),
            OpenEvent::Named(None) => OpenEventView::Named(None),
        }
    }
}

/// How the opening goes on.
#[derive(Debug)]
pub enum OpenStep {
    /// Do this and hand back what came of it.
    Perform(OpenAction),
    /// The device is open.
    Opened(Context),
    /// No RDMA device can be opened.
    NoDevice,
}

/// A step as a value; an opened device by its handle and its name.
pub enum OpenStepView {
    Perform(OpenAction),
    Opened(u64, Seq<char>),
    NoDevice,
}

impl View for OpenStep {
    type V = OpenStepView;

    open spec fn view(&self) -> OpenStepView {
        match *self {
            OpenStep::Perform(action) => OpenStepView::Perform(action),
            OpenStep::Opened(context) => OpenStepView::Opened(context.handle, context.name@),
            OpenStep::NoDevice => OpenStepView::NoDevice,
        }
    }
}

/// What to do in a stage.
pub open spec fn open_action(stage: OpenStage) -> OpenAction {
    match stage {
        OpenStage::List => OpenAction::ListDevices,
        OpenStage::Abandon { list } => OpenAction::FreeList { list },
        OpenStage::Open { device, .. } => OpenAction::OpenDevice { device },
        OpenStage::Release { list, .. } => OpenAction::FreeList { list },
        OpenStage::Name { device, .. } => OpenAction::AskName { device },
        OpenStage::Close { context } => OpenAction::CloseDevice { context },
    }
}

/// The event is one that the action can end with.
pub open spec fn open_fits(action: OpenAction, event: OpenEventView) -> bool {
    match action {
        OpenAction::ListDevices => event is Listed,
        OpenAction::FreeList { .. } => event is Done,
        OpenAction::OpenDevice { .. } => event is Opened,
        OpenAction::AskName { .. } => event is Named,
        OpenAction::CloseDevice { .. } => event is Done,
    }
}

/// The stage that follows, or how the opening ends.
pub open spec fn open_next(stage: OpenStage, event: OpenEventView) -> Result<
    OpenStage,
    OpenStepView,
> {
    match (stage, event) {
        (OpenStage::List, OpenEventView::Listed { list, count, first }) => if list == 0 {
            Err(OpenStepView::NoDevice)
        } else if count == 0 || first == 0 {
            Ok(OpenStage::Abandon { list })
        } else {
            Ok(OpenStage::Open { list, device: first })
        },
        (OpenStage::Open { list, device }, OpenEventView::Opened(context)) => Ok(
            OpenStage::Release { list, device, context },
        ),
        (OpenStage::Release { device, context, .. }, _) => if context == 0 {
            Err(OpenStepView::NoDevice)
        } else {
            Ok(OpenStage::Name { device, context })
        },
        (OpenStage::Name { context, .. }, OpenEventView::Named(name)) => match name {
            Some(name) => Err(OpenStepView::Opened(context, name)),
            None => Ok(OpenStage::Close { context }),
        },
        _ => Err(OpenStepView::NoDevice),
    }
}

/// The opening of the first available device.
#[derive(Debug)]
pub struct DeviceOpening {
    pub stage: OpenStage,
}

impl DeviceOpening {
    /// What to do next.
    pub fn action(&self) -> (a: OpenAction)
        ensures
            a == open_action(self.stage),
    {
        match self.stage {
            OpenStage::List => OpenAction::ListDevices,
            OpenStage::Abandon { list } => OpenAction::FreeList { list },
            OpenStage::Open { device, .. } => OpenAction::OpenDevice { device },
            OpenStage::Release { list, .. } => OpenAction::FreeList { list },
            OpenStage::Name { device, .. } => OpenAction::AskName { device },
            OpenStage::Close { context } => OpenAction::CloseDevice { context },
        }
    }

    /// Goes on with what came of the action. The list is freed as soon as the device
    /// was opened, and a device without a name is closed again.
    pub fn step(&mut self, event: OpenEvent) -> (r: OpenStep)
        requires
            open_fits(open_action(old(self).stage), event@),
        ensures
            match open_next(old(self).stage, event@) {
                Ok(next) => {
                    &&& final(self).stage == next
                    &&& r@ == OpenStepView::Perform(open_action(next))
                },
                Err(end) => r@ == end,
            },
    {
        let next: OpenStage = match self.stage {
            OpenStage::List => match event {
                OpenEvent::Listed { list, count, first } => if list == 0 {
                    return OpenStep::NoDevice;
                } else if count == 0 || first == 0 {
                    OpenStage::Abandon { list }
                } else {
                    OpenStage::Open { list, device: first }
                },
                _ => return OpenStep::NoDevice,
            },
            OpenStage::Open { list, device } => match event {
                OpenEvent::Opened(context) => OpenStage::Release { list, device, context },
                _ => return OpenStep::NoDevice,
            },
            OpenStage::Release { device, context, .. } => if context == 0 {
                return OpenStep::NoDevice;
            } else {
                OpenStage::Name { device, context }
            },
            OpenStage::Name { context, .. } => match event {
                OpenEvent::Named(Some(name)) => {
                    return OpenStep::Opened(Context { handle: context, name });
                },
                _ => OpenStage::Close { context },
            },
            _ => return OpenStep::NoDevice,
        };
        self.stage = next;
        OpenStep::Perform(self.action())
    }
}

// ---------------------------------------------------------------------------
// Laws
// ---------------------------------------------------------------------------
/// How a machine answers: its device list with the number of devices and the first
/// of them, the handle of the opened device, and its name.
pub struct Machine {
    pub list: u64,
    pub count: i32,
    pub first: u64,
    pub context: u64,
    pub name: Option<Seq<char>>,
}

/// What comes of an action on the machine.
pub open spec fn reaction(m: Machine, action: OpenAction) -> OpenEventView {
    match action {
        OpenAction::ListDevices => OpenEventView::Listed {
            list: m.list,
            count: m.count,
            first: m.first,
        },
        OpenAction::FreeList { .. } => OpenEventView::Done,
        OpenAction::OpenDevice { .. } => OpenEventView::Opened(m.context),
        OpenAction::AskName { .. } => OpenEventView::Named(m.name),
        OpenAction::CloseDevice { .. } => OpenEventView::Done,
    }
}

/// The actions from a stage on, and how the opening ends.
pub open spec fn open_run(m: Machine, stage: OpenStage, fuel: nat) -> (
    Seq<OpenAction>,
    OpenStepView,
)
    decreases fuel,
{
    let action = open_action(stage);
    match open_next(stage, reaction(m, action)) {
        Err(end) => (seq![action], end),
        Ok(next) => if fuel == 0 {
            (seq![action], OpenStepView::Perform(open_action(next)))
        } else {
            let (rest, end) = open_run(m, next, (fuel - 1) as nat);
            (seq![action] + rest, end)
        },
    }
}

/// The first device of a machine is opened exactly if the machine lists one that
/// can be opened and has a name. The list is freed exactly once if there is one,
/// and a device that was opened in vain is closed again.
pub proof fn law_device_opening(m: Machine)
    ensures
        ({
            let (actions, end) = open_run(m, OpenStage::List, 4);
            let listed = m.list != 0 && m.count != 0 && m.first != 0;
            let opened = listed && m.context != 0;
            &&& end == (match m.name {
                Some(name) if opened => OpenStepView::Opened(m.context, name),
                _ => OpenStepView::NoDevice,
            })
            &&& actions.to_multiset().count(OpenAction::FreeList { list: m.list }) == (if m.list
                == 0 {
                0nat
            } else {
                1nat
            })
            &&& actions.contains(OpenAction::CloseDevice { context: m.context }) == (opened
                && m.name is None)
        }),
{
    reveal_with_fuel(open_run, 6);
    broadcast use vstd::seq_lib::group_to_multiset_ensures;

    let (actions, end) = open_run(m, OpenStage::List, 4);
    let listed = m.list != 0 && m.count != 0 && m.first != 0;
    let free = OpenAction::FreeList { list: m.list };
    let close = OpenAction::CloseDevice { context: m.context };
    if m.list == 0 {
        assert(actions =~= seq![OpenAction::ListDevices]);
        assert(actions =~= Seq::<OpenAction>::empty().push(OpenAction::ListDevices));
    } else if !listed {
        assert(actions =~= seq![OpenAction::ListDevices, free]);
        assert(actions =~= Seq::<OpenAction>::empty().push(OpenAction::ListDevices).push(free));
    } else {
        let ask = OpenAction::OpenDevice { device: m.first };
        let start = Seq::<OpenAction>::empty().push(OpenAction::ListDevices).push(ask).push(free);
        if m.context == 0 {
            assert(actions =~= start);
        } else if m.name is Some {
            assert(actions =~= start.push(OpenAction::AskName { device: m.first }));
        } else {
            assert(actions =~= start.push(OpenAction::AskName { device: m.first }).push(close));
            assert(actions[4] == close);
        }
    }
}

/// The device that is opened and asked for its name is the first of the list, and it
/// is opened exactly if the list has one.
pub proof fn law_first_device_is_opened(m: Machine)
    ensures
        ({
            let actions = open_run(m, OpenStage::List, 4).0;
            let listed = m.list != 0 && m.count != 0 && m.first != 0;
            &&& actions[0] == OpenAction::ListDevices
            &&& actions.contains(OpenAction::OpenDevice { device: m.first }) == listed
            &&& actions.contains(OpenAction::AskName { device: m.first }) == (listed && m.context
                != 0)
        }),
{
    reveal_with_fuel(open_run, 6);
    let actions = open_run(m, OpenStage::List, 4).0;
    let listed = m.list != 0 && m.count != 0 && m.first != 0;
    let free = OpenAction::FreeList { list: m.list };
    if m.list == 0 {
        assert(actions =~= seq![OpenAction::ListDevices]);
    } else if !listed {
        assert(actions =~= seq![OpenAction::ListDevices, free]);
    } else {
        let open = OpenAction::OpenDevice { device: m.first };
        let ask = OpenAction::AskName { device: m.first };
        if m.context == 0 {
            assert(actions =~= seq![OpenAction::ListDevices, open, free]);
        } else if m.name is Some {
            assert(actions =~= seq![OpenAction::ListDevices, open, free, ask]);
            assert(actions[3] == ask);
        } else {
            assert(actions =~= seq![
                OpenAction::ListDevices,
                open,
                free,
                ask,
                OpenAction::CloseDevice { context: m.context },
            ]);
            assert(actions[3] == ask);
        }
        assert(actions[1] == open);
    }
}

} // verus!
