//! The device record that every backend produces.

use vstd::multiset::Multiset;
use vstd::prelude::*;
use crate::sysfs::SysfsPath;
use crate::text::{same_text, three_digits};

verus! {

/// The speed at which a device is connected.
#[derive(Clone, Copy, Debug, PartialEq, Eq, Structural)]
pub enum Speed {
    /// 1.5 Mbit/s
    Low,
    /// 12 Mbit/s
    Full,
    /// 480 Mbit/s
    High,
    /// 5000 Mbit/s
    Super,
    /// 10000 Mbit/s
    SuperPlus,
}

impl Speed {
    /// The speed that `s` names, by word or by its rate in Mbit/s.
    pub open spec fn named(s: Seq<char>) -> Option<Speed> {
        if s == "low"@ || s == "1.5"@ {
            Some(Speed::Low)
        } else if s == "full"@ || s == "12"@ {
            Some(Speed::Full)
        } else if s == "high"@ || s == "480"@ {
            Some(Speed::High)
        } else if s == "super"@ || s == "5000"@ {
            Some(Speed::Super)
        } else if s == "super+"@ || s == "10000"@ {
            Some(Speed::SuperPlus)
        } else {
            None
        }
    }

    /// Looks a speed up by its name.
    pub fn from_str(s: &str) -> (r: Option<Speed>)
        ensures
            r == Speed::named(s@),
    {
        if same_text(s, "low") || same_text(s, "1.5") {
            Some(Speed::Low)
        } else if same_text(s, "full") || same_text(s, "12") {
            Some(Speed::Full)
        } else if same_text(s, "high") || same_text(s, "480") {
            Some(Speed::High)
        } else if same_text(s, "super") || same_text(s, "5000") {
            Some(Speed::Super)
        } else if same_text(s, "super+") || same_text(s, "10000") {
            Some(Speed::SuperPlus)
        } else {
            None
        }
    }
}

/// One interface of a device.
#[derive(Clone, Debug, PartialEq, Eq)]
pub struct InterfaceInfo {
    pub interface_number: u8,
    pub class: u8,
    pub subclass: u8,
    pub protocol: u8,
    pub interface_string: Option<String>,
}

/// An interface as a mathematical value.
pub struct InterfaceView {
    pub interface_number: u8,
    pub class: u8,
    pub subclass: u8,
    pub protocol: u8,
    pub interface_string: Option<Seq<char>>,
}

/// The characters of an optional string.
pub open spec fn text_view(s: Option<String>) -> Option<Seq<char>> {
    match s {
        Some(t) => Some(t@),
        None => None,
    }
}

impl View for InterfaceInfo {
    type V = InterfaceView;

    open spec fn view(&self) -> InterfaceView {
        InterfaceView {
            interface_number: self.interface_number,
            class: self.class,
            subclass: self.subclass,
            protocol: self.protocol,
            interface_string: text_view(self.interface_string),
        }
    }
}

/// The interfaces of a list as mathematical values.
pub open spec fn interface_views(list: Seq<InterfaceInfo>) -> Seq<InterfaceView> {
    list.map_values(|i: InterfaceInfo| i@)
}

/// Whether no interface of the list has a smaller number than one that
/// stands before it.
pub open spec fn in_number_order(list: Seq<InterfaceView>) -> bool {
    forall|i: int, j: int|
        0 <= i <= j < list.len() ==> list[i].interface_number <= list[j].interface_number
}

/// One connected device, as it was found.
#[derive(Clone, Debug)]
pub struct DeviceInfo {
    pub path: SysfsPath,
    pub busnum: u8,
    pub bus_id: String,
    pub device_address: u8,
    pub port_chain: Vec<u8>,
    pub vendor_id: u16,
    pub product_id: u16,
    pub device_version: u16,
    pub class: u8,
    pub subclass: u8,
    pub protocol: u8,
    pub max_packet_size_0: u8,
    pub speed: Option<Speed>,
    pub manufacturer_string: Option<String>,
    pub product_string: Option<String>,
    pub serial_number: Option<String>,
    pub interfaces: Vec<InterfaceInfo>,
}

/// A device record as a mathematical value.
pub struct DeviceView {
    pub path: SysfsPath,
    pub busnum: u8,
    pub bus_id: Seq<char>,
    pub device_address: u8,
    pub port_chain: Seq<u8>,
    pub vendor_id: u16,
    pub product_id: u16,
    pub device_version: u16,
    pub class: u8,
    pub subclass: u8,
    pub protocol: u8,
    pub max_packet_size_0: u8,
    pub speed: Option<Speed>,
    pub manufacturer_string: Option<Seq<char>>,
    pub product_string: Option<Seq<char>>,
    pub serial_number: Option<Seq<char>>,
    pub interfaces: Seq<InterfaceView>,
}

impl View for DeviceInfo {
    type V = DeviceView;

    open spec fn view(&self) -> DeviceView {
        DeviceView {
            path: self.path,
            busnum: self.busnum,
            bus_id: self.bus_id@,
            device_address: self.device_address,
            port_chain: self.port_chain@,
            vendor_id: self.vendor_id,
            product_id: self.product_id,
            device_version: self.device_version,
            class: self.class,
            subclass: self.subclass,
            protocol: self.protocol,
            max_packet_size_0: self.max_packet_size_0,
            speed: self.speed,
            manufacturer_string: text_view(self.manufacturer_string),
            product_string: text_view(self.product_string),
            serial_number: text_view(self.serial_number),
            interfaces: interface_views(self.interfaces@),
        }
    }
}

impl DeviceView {
    /// Whether the record holds together: its bus id is its bus number in
    /// three digits, and its interfaces are in number order.
    pub open spec fn well_formed(self) -> bool {
        &&& self.bus_id == three_digits(self.busnum)
        &&& in_number_order(self.interfaces)
    }
}

/// The views of a list with one interface more are the views of the list
/// with that interface's view more, at the same place.
pub proof fn lemma_views_insert(list: Seq<InterfaceInfo>, at: int, item: InterfaceInfo)
    requires
        0 <= at <= list.len(),
    ensures
        interface_views(list.insert(at, item)) == interface_views(list).insert(at, item@),
{
    assert(interface_views(list.insert(at, item)) =~= interface_views(list).insert(at, item@));
}

/// Puts `item` into a list that is in number order, behind the interfaces
/// whose number is not greater than its own.
fn insert_in_number_order(list: &mut Vec<InterfaceInfo>, item: InterfaceInfo)
    requires
        in_number_order(interface_views(old(list)@)),
    ensures
        in_number_order(interface_views(final(list)@)),
        interface_views(final(list)@).to_multiset() == interface_views(
            old(list)@,
        ).to_multiset().insert(item@),
{
    let ghost before = list@;
    let mut at: usize = 0;
    while at < list.len() && list[at].interface_number <= item.interface_number
        invariant
            list@ == before,
            at <= list@.len(),
            forall|i: int|
                0 <= i < at ==> (#[trigger] list@[i]).interface_number <= item.interface_number,
        decreases list@.len() - at,
    {
        at += 1;
    }
    list.insert(at, item);
    proof {
        lemma_views_insert(before, at as int, item);
        vstd::seq_lib::to_multiset_insert(interface_views(before), at as int, item@);
        let old_views = interface_views(before);
        let new_views = interface_views(list@);
        assert forall|i: int, j: int|
            0 <= i <= j < new_views.len() implies new_views[i].interface_number
            <= new_views[j].interface_number by {
            let a = if i < at {
                i
            } else {
                i - 1
            };
            let b = if j < at {
                j
            } else {
                j - 1
            };
            if i != at && j != at {
                assert(new_views[i] == old_views[a]);
                assert(new_views[j] == old_views[b]);
                assert(old_views[a].interface_number <= old_views[b].interface_number);
            } else if i == at && j != at {
                assert(new_views[j] == old_views[b]);
                assert(old_views[at as int].interface_number <= old_views[b].interface_number);
                assert(old_views[at as int] == before[at as int]@);
            } else if i != at && j == at {
                assert(new_views[i] == old_views[a]);
                assert(old_views[a] == before[a]@);
            }
        }
    }
}

/// A list of no interfaces has no views.
pub proof fn lemma_no_views(list: Seq<InterfaceInfo>)
    requires
        list.len() == 0,
    ensures
        interface_views(list).to_multiset() == Multiset::<InterfaceView>::empty(),
{
    vstd::seq_lib::to_multiset_len(interface_views(list));
    vstd::multiset::lemma_multiset_empty_len(interface_views(list).to_multiset());
}

/// Puts a list of interfaces in number order.
pub fn sort_by_number(list: Vec<InterfaceInfo>) -> (r: Vec<InterfaceInfo>)
    ensures
        in_number_order(interface_views(r@)),
        interface_views(r@).to_multiset() == interface_views(list@).to_multiset(),
{
    let mut rest = list;
    let mut sorted: Vec<InterfaceInfo> = Vec::new();
    proof {
        lemma_no_views(sorted@);
        assert(interface_views(sorted@).to_multiset().add(interface_views(rest@).to_multiset())
            =~= interface_views(list@).to_multiset());
    }
    while rest.len() > 0
        invariant
            in_number_order(interface_views(sorted@)),
            interface_views(sorted@).to_multiset().add(interface_views(rest@).to_multiset())
                == interface_views(list@).to_multiset(),
        decreases rest@.len(),
    {
        let ghost before = rest@;
        let ghost done = interface_views(sorted@).to_multiset();
        let item = rest.pop().unwrap();
        proof {
            assert(interface_views(before) =~= interface_views(rest@).push(item@));
            vstd::seq_lib::to_multiset_build(interface_views(rest@), item@);
        }
        insert_in_number_order(&mut sorted, item);
        proof {
            assert(done.insert(item@).add(interface_views(rest@).to_multiset()) =~= done.add(
                interface_views(rest@).to_multiset().insert(item@),
            ));
        }
    }
    proof {
        lemma_no_views(rest@);
        assert(interface_views(sorted@).to_multiset().add(interface_views(rest@).to_multiset())
            =~= interface_views(sorted@).to_multiset());
    }
    sorted
}

} // verus!
