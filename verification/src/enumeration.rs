//! Finding the devices of the device tree and reading what each one says
//! of itself.

use vstd::prelude::*;
use crate::device::{
    in_number_order,
    interface_views,
    sort_by_number,
    text_view,
    DeviceInfo,
    DeviceView,
    InterfaceInfo,
    InterfaceView,
    Speed,
};
use crate::error::Error;
use crate::permutation::{
    guarded,
    lemma_filter_map_permutation,
    lemma_filter_then_filter_map,
    lemma_map_values_permutation,
};
use crate::sysfs::{
    subdirectories,
    IoFailure,
    SysfsEntry,
    SysfsError,
    SysfsErrorView,
    SysfsPath,
};
use crate::text::{
    chars_of,
    contains_char,
    format_three_digits,
    parse_port_chain,
    parse_unsigned,
    port_chain,
    three_digits,
    trim,
};

verus! {

/// Whether `name` has the shape of a device's name: digits, `-` and `.`
/// only. The names of root hubs and of interfaces have other characters.
pub open spec fn is_device_name(name: Seq<char>) -> bool {
    forall|i: int| 0 <= i < name.len() ==> is_device_name_char(#[trigger] name[i])
}

/// Whether `c` may stand in a device's name.
pub open spec fn is_device_name_char(c: char) -> bool {
    ('0' <= c && c <= '9') || c == '-' || c == '.'
}

/// Tests a name for the shape of a device's name.
pub fn has_device_name_shape(name: &str) -> (r: bool)
    ensures
        r == is_device_name(name@),
{
    let chars = chars_of(name);
    let mut i: usize = 0;
    while i < chars.len()
        invariant
            i <= chars@.len(),
            chars@ == name@,
            forall|j: int| 0 <= j < i ==> is_device_name_char(#[trigger] chars@[j]),
        decreases chars@.len() - i,
    {
        let c = chars[i];
        if !(('0' <= c && c <= '9') || c == '-' || c == '.') {
            return false;
        }
        i += 1;
    }
    true
}

/// The text of an attribute that a record can do without.
pub open spec fn optional_text(node: SysfsEntry, attr: Seq<char>) -> Option<Seq<char>> {
    match node.read_spec::<String>(attr) {
        Ok(text) => Some(text),
        Err(_) => None,
    }
}

/// The interface that a subdirectory describes. One whose name has no `:`,
/// or that lacks one of the four numbers of an interface, describes none.
pub open spec fn interface_of(entry: SysfsEntry) -> Option<InterfaceView> {
    let number = entry.read_hex_spec::<u8>("bInterfaceNumber"@);
    let class = entry.read_hex_spec::<u8>("bInterfaceClass"@);
    let subclass = entry.read_hex_spec::<u8>("bInterfaceSubClass"@);
    let protocol = entry.read_hex_spec::<u8>("bInterfaceProtocol"@);
    if entry.name@.contains(':') && number is Ok && class is Ok && subclass is Ok
        && protocol is Ok {
        Some(
            InterfaceView {
                interface_number: number->Ok_0,
                class: class->Ok_0,
                subclass: subclass->Ok_0,
                protocol: protocol->Ok_0,
                interface_string: optional_text(entry, "interface"@),
            },
        )
    } else {
        None
    }
}

/// The interfaces of a device, in the order in which its directory lists
/// them.
pub open spec fn found_interfaces(path: SysfsPath) -> Seq<InterfaceView> {
    subdirectories(path).filter_map(|e: SysfsEntry| interface_of(e))
}

/// The port chain of a device: what its `devpath` writes, or no hops at all
/// where that cannot be read or is no port chain.
pub open spec fn port_chain_of(node: SysfsEntry) -> Seq<u8> {
    match node.read_spec::<String>("devpath"@) {
        Ok(text) => match port_chain(text) {
            Some(hops) => hops,
            None => Seq::empty(),
        },
        Err(_) => Seq::empty(),
    }
}

/// The speed of a device, where its `speed` can be read and names one.
pub open spec fn speed_of(node: SysfsEntry) -> Option<Speed> {
    match node.read_spec::<String>("speed"@) {
        Ok(text) => Speed::named(text),
        Err(_) => None,
    }
}

/// The failure of the first attribute that a record cannot do without and
/// that cannot be had, in the order in which they are read.
pub open spec fn required_failure(node: SysfsEntry) -> Option<SysfsErrorView> {
    let busnum = node.read_spec::<u8>("busnum"@);
    let devnum = node.read_spec::<u8>("devnum"@);
    let vendor = node.read_hex_spec::<u16>("idVendor"@);
    let product = node.read_hex_spec::<u16>("idProduct"@);
    let version = node.read_hex_spec::<u16>("bcdDevice"@);
    let class = node.read_hex_spec::<u8>("bDeviceClass"@);
    let subclass = node.read_hex_spec::<u8>("bDeviceSubClass"@);
    let protocol = node.read_hex_spec::<u8>("bDeviceProtocol"@);
    let packet = node.read_spec::<u8>("bMaxPacketSize0"@);
    if busnum is Err {
        Some(busnum->Err_0)
    } else if devnum is Err {
        Some(devnum->Err_0)
    } else if vendor is Err {
        Some(vendor->Err_0)
    } else if product is Err {
        Some(product->Err_0)
    } else if version is Err {
        Some(version->Err_0)
    } else if class is Err {
        Some(class->Err_0)
    } else if subclass is Err {
        Some(subclass->Err_0)
    } else if protocol is Err {
        Some(protocol->Err_0)
    } else if packet is Err {
        Some(packet->Err_0)
    } else {
        None
    }
}

/// The record of a device whose required attributes can all be had, with
/// the given list of interfaces.
pub open spec fn record(path: SysfsPath, interfaces: Seq<InterfaceView>) -> DeviceView {
    let node = path.node;
    let busnum = node.read_spec::<u8>("busnum"@)->Ok_0;
    DeviceView {
        path,
        busnum,
        bus_id: three_digits(busnum),
        device_address: node.read_spec::<u8>("devnum"@)->Ok_0,
        port_chain: port_chain_of(node),
        vendor_id: node.read_hex_spec::<u16>("idVendor"@)->Ok_0,
        product_id: node.read_hex_spec::<u16>("idProduct"@)->Ok_0,
        device_version: node.read_hex_spec::<u16>("bcdDevice"@)->Ok_0,
        class: node.read_hex_spec::<u8>("bDeviceClass"@)->Ok_0,
        subclass: node.read_hex_spec::<u8>("bDeviceSubClass"@)->Ok_0,
        protocol: node.read_hex_spec::<u8>("bDeviceProtocol"@)->Ok_0,
        max_packet_size_0: node.read_spec::<u8>("bMaxPacketSize0"@)->Ok_0,
        speed: speed_of(node),
        manufacturer_string: optional_text(node, "manufacturer"@),
        product_string: optional_text(node, "product"@),
        serial_number: optional_text(node, "serial"@),
        interfaces,
    }
}

/// Whether `device` is a record of the device at `path`: every field as
/// the attributes give it, and the interfaces those that were found, in
/// number order.
pub open spec fn is_record_of(device: DeviceView, path: SysfsPath) -> bool {
    &&& device == record(path, device.interfaces)
    &&& in_number_order(device.interfaces)
    &&& device.interfaces.to_multiset() == found_interfaces(path).to_multiset()
}

/// A record of a device holds together.
pub proof fn lemma_records_are_well_formed(device: DeviceView, path: SysfsPath)
    requires
        is_record_of(device, path),
    ensures
        device.well_formed(),
        device.path == path,
{
}

/// Reads an attribute that a record can do without.
fn read_optional(node: &SysfsEntry, attr: &str) -> (r: Option<String>)
    ensures
        text_view(r) == optional_text(*node, attr@),
{
    match node.read_attr::<String>(attr) {
        Ok(text) => Some(text),
        Err(_) => None,
    }
}

/// Reads the interface that a subdirectory describes.
fn probe_interface(entry: &SysfsEntry) -> (r: Option<InterfaceInfo>)
    ensures
        match r {
            Some(i) => interface_of(*entry) == Some(i@),
            None => interface_of(*entry) is None,
        },
{
    if !contains_char(entry.name.as_str(), ':') {
        return None;
    }
    let interface_number = match entry.read_attr_hex::<u8>("bInterfaceNumber") {
        Ok(v) => v,
        Err(_) => {
            return None;
        },
    };
    let class = match entry.read_attr_hex::<u8>("bInterfaceClass") {
        Ok(v) => v,
        Err(_) => {
            return None;
        },
    };
    let subclass = match entry.read_attr_hex::<u8>("bInterfaceSubClass") {
        Ok(v) => v,
        Err(_) => {
            return None;
        },
    };
    let protocol = match entry.read_attr_hex::<u8>("bInterfaceProtocol") {
        Ok(v) => v,
        Err(_) => {
            return None;
        },
    };
    let interface_string = read_optional(entry, "interface");
    Some(InterfaceInfo { interface_number, class, subclass, protocol, interface_string })
}

/// Reads the interfaces of a device, in the order in which its directory
/// lists them.
fn collect_interfaces(path: &SysfsPath) -> (r: Vec<InterfaceInfo>)
    ensures
        interface_views(r@) == found_interfaces(*path),
{
    let ghost reader = |e: SysfsEntry| interface_of(e);
    let ghost dirs = subdirectories(*path);
    let children = path.children();
    let mut found: Vec<InterfaceInfo> = Vec::new();
    let mut i: usize = 0;
    proof {
        assert(dirs.take(0).filter_map(reader) =~= Seq::empty());
        assert(interface_views(found@) =~= Seq::empty());
    }
    while i < children.len()
        invariant
            i <= children@.len(),
            children@.len() == dirs.len(),
            forall|j: int| 0 <= j < children@.len() ==> *(#[trigger] children@[j]) == dirs[j],
            reader == |e: SysfsEntry| interface_of(e),
            interface_views(found@) == dirs.take(i as int).filter_map(reader),
        decreases children@.len() - i,
    {
        let ghost before = found@;
        proof {
            dirs.lemma_filter_map_take_succ(reader, i as int);
            assert(*children@[i as int] == dirs[i as int]);
        }
        match probe_interface(children[i]) {
            Some(interface) => {
                found.push(interface);
                proof {
                    assert(interface_views(found@) =~= interface_views(before) + seq![interface@]);
                }
            },
            None => {},
        }
        i += 1;
    }
    proof {
        assert(dirs.take(i as int) =~= dirs);
    }
    found
}

/// Reads the port chain of a device.
fn read_port_chain(node: &SysfsEntry) -> (r: Vec<u8>)
    ensures
        r@ == port_chain_of(*node),
{
    match node.read_attr::<String>("devpath") {
        Ok(text) => match parse_port_chain(text.as_str()) {
            Some(hops) => hops,
            None => Vec::new(),
        },
        Err(_) => Vec::new(),
    }
}

/// Reads the speed of a device.
fn read_speed(node: &SysfsEntry) -> (r: Option<Speed>)
    ensures
        r == speed_of(*node),
{
    match node.read_attr::<String>("speed") {
        Ok(text) => Speed::from_str(text.as_str()),
        Err(_) => None,
    }
}

/// Reads the record of the device at `path`.
///
/// The probe fails where one of the attributes that a record cannot do
/// without cannot be had, with the failure of the first such attribute.
/// Everything else degrades: a port chain that cannot be read is empty, a
/// string or a speed that cannot be read is absent, and a subdirectory
/// that does not describe an interface is passed over.
pub fn probe_device(path: SysfsPath) -> (r: Result<DeviceInfo, SysfsError>)
    ensures
        match r {
            Ok(device) => {
                &&& required_failure(path.node) is None
                &&& is_record_of(device@, path)
                &&& device@.well_formed()
            },
            Err(e) => required_failure(path.node) == Some(e@),
        },
{
    let busnum: u8 = path.read_attr::<u8>("busnum")?;
    let device_address: u8 = path.read_attr::<u8>("devnum")?;
    let port_chain = read_port_chain(&path.node);
    let vendor_id: u16 = path.read_attr_hex::<u16>("idVendor")?;
    let product_id: u16 = path.read_attr_hex::<u16>("idProduct")?;
    let device_version: u16 = path.read_attr_hex::<u16>("bcdDevice")?;
    let class: u8 = path.read_attr_hex::<u8>("bDeviceClass")?;
    let subclass: u8 = path.read_attr_hex::<u8>("bDeviceSubClass")?;
    let protocol: u8 = path.read_attr_hex::<u8>("bDeviceProtocol")?;
    let max_packet_size_0: u8 = path.read_attr::<u8>("bMaxPacketSize0")?;
    let speed = read_speed(&path.node);
    let manufacturer_string = read_optional(&path.node, "manufacturer");
    let product_string = read_optional(&path.node, "product");
    let serial_number = read_optional(&path.node, "serial");
    let interfaces = sort_by_number(collect_interfaces(&path));
    Ok(
        DeviceInfo {
            busnum,
            bus_id: format_three_digits(busnum),
            device_address,
            port_chain,
            vendor_id,
            product_id,
            device_version,
            class,
            subclass,
            protocol,
            max_packet_size_0,
            speed,
            manufacturer_string,
            product_string,
            serial_number,
            interfaces,
            path,
        },
    )
}

/// Whether an entry of the device tree's root stands for a device that
/// enumeration lists: it has the name of a device, and its probe does not
/// fail.
pub open spec fn is_listed(path: SysfsPath) -> bool {
    is_device_name(path.node.name@) && required_failure(path.node) is None
}

/// The entries of the device tree's root that enumeration lists, in the
/// order of the listing.
pub open spec fn listed(entries: Seq<SysfsPath>) -> Seq<SysfsPath> {
    entries.filter(|p: SysfsPath| is_listed(p))
}

/// Lists the devices of the device tree, from what listing its root gave.
///
/// Fails only where the root could not be listed. An entry that does not
/// have the name of a device is passed over, and so is one whose probe
/// fails: the other devices are listed all the same, in the order of the
/// listing.
pub fn list_devices(listing: Result<Vec<SysfsPath>, IoFailure>) -> (r: Result<
    Vec<DeviceInfo>,
    Error,
>)
    ensures
        match r {
            Ok(devices) => listing matches Ok(entries) && {
                &&& devices@.len() == listed(entries@).len()
                &&& forall|i: int|
                    0 <= i < devices@.len() ==> is_record_of(
                        (#[trigger] devices@[i])@,
                        listed(entries@)[i],
                    )
                &&& forall|i: int|
                    0 <= i < devices@.len() ==> is_device_name(
                        (#[trigger] devices@[i]).path.node.name@,
                    )
                &&& forall|i: int|
                    0 <= i < devices@.len() ==> (#[trigger] devices@[i])@.well_formed()
            },
            Err(e) => listing matches Err(failure) && e == Error::Io(failure),
        },
{
    let entries = match listing {
        Ok(entries) => entries,
        Err(failure) => {
            return Err(Error::Io(failure));
        },
    };
    let ghost all = entries@;
    let ghost keep = |p: SysfsPath| is_listed(p);
    let mut devices: Vec<DeviceInfo> = Vec::new();
    proof {
        assert(all.take(0).filter(keep) =~= Seq::empty());
    }
    for path in iter: entries
        invariant
            iter.seq() == all,
            keep == |p: SysfsPath| is_listed(p),
            devices@.len() == all.take(iter.index()).filter(keep).len(),
            forall|i: int|
                0 <= i < devices@.len() ==> is_record_of(
                    (#[trigger] devices@[i])@,
                    all.take(iter.index()).filter(keep)[i],
                ),
            forall|i: int|
                0 <= i < devices@.len() ==> is_device_name(
                    (#[trigger] devices@[i]).path.node.name@,
                ),
    {
        proof {
            assert(all.take(iter.index() + 1).drop_last() =~= all.take(iter.index()));
            reveal(Seq::filter);
        }
        if has_device_name_shape(path.node.name.as_str()) {
            match probe_device(path) {
                Ok(device) => {
                    devices.push(device);
                },
                Err(_) => {},
            }
        }
    }
    proof {
        assert(all.take(all.len() as int) =~= all);
    }
    Ok(devices)
}

/// The numbers of the interfaces of a list, in the order of the list.
pub open spec fn interface_numbers(list: Seq<InterfaceView>) -> Seq<u8> {
    list.map_values(|i: InterfaceView| i.interface_number)
}

/// The interfaces of a record do not depend on the order in which the
/// device's directory lists its entries: two records of one device, read
/// from listings that hold the same entries in any two orders, have the
/// same interfaces, and their numbers come in the same order, which is
/// ascending.
pub proof fn lemma_interfaces_independent_of_listing_order(
    a: SysfsPath,
    b: SysfsPath,
    first: DeviceView,
    second: DeviceView,
)
    requires
        a.entries@.to_multiset() == b.entries@.to_multiset(),
        is_record_of(first, a),
        is_record_of(second, b),
    ensures
        in_number_order(first.interfaces),
        in_number_order(second.interfaces),
        first.interfaces.to_multiset() == second.interfaces.to_multiset(),
        interface_numbers(first.interfaces) == interface_numbers(second.interfaces),
{
    let is_dir = |e: SysfsEntry| e.is_dir;
    let reader = |e: SysfsEntry| interface_of(e);
    lemma_filter_then_filter_map(a.entries@, is_dir, reader);
    lemma_filter_then_filter_map(b.entries@, is_dir, reader);
    lemma_filter_map_permutation(a.entries@, b.entries@, guarded(is_dir, reader));
    let number = |i: InterfaceView| i.interface_number;
    lemma_map_values_permutation(first.interfaces, second.interfaces, number);
    let at_most = |x: u8, y: u8| x <= y;
    let x = interface_numbers(first.interfaces);
    let y = interface_numbers(second.interfaces);
    assert(vstd::relations::sorted_by(x, at_most)) by {
        assert forall|i: int, j: int| 0 <= i < j < x.len() implies #[trigger] at_most(
            x[i],
            x[j],
        ) by {
            assert(first.interfaces[i].interface_number <= first.interfaces[j].interface_number);
        }
    }
    assert(vstd::relations::sorted_by(y, at_most)) by {
        assert forall|i: int, j: int| 0 <= i < j < y.len() implies #[trigger] at_most(
            y[i],
            y[j],
        ) by {
            assert(second.interfaces[i].interface_number
                <= second.interfaces[j].interface_number);
        }
    }
    assert(vstd::relations::total_ordering(at_most));
    vstd::seq_lib::lemma_sorted_unique(x, y, at_most);
}

/// A device whose vendor id cannot be read, or is no hexadecimal number of
/// 16 bits, fails its probe.
pub proof fn lemma_vendor_id_is_required(node: SysfsEntry)
    requires
        match node.raw("idVendor"@) {
            Ok(text) => parse_unsigned(trim(text), 16, 0xFFFF) is None,
            Err(_) => true,
        },
    ensures
        required_failure(node) is Some,
{
}

/// A device whose probe fails takes no other device out of the
/// enumeration: what is listed with it in the tree is what is listed
/// without it.
pub proof fn lemma_failing_device_leaves_siblings(entries: Seq<SysfsPath>, at: int)
    requires
        0 <= at < entries.len(),
        required_failure(entries[at].node) is Some,
    ensures
        listed(entries) == listed(entries.remove(at)),
{
    let keep = |p: SysfsPath| is_listed(p);
    let left = entries.take(at);
    let one = seq![entries[at]];
    let right = entries.skip(at + 1);
    assert(entries =~= (left + one) + right);
    assert(entries.remove(at) =~= left + right);
    Seq::filter_distributes_over_add(left + one, right, keep);
    Seq::filter_distributes_over_add(left, one, keep);
    Seq::filter_distributes_over_add(left, right, keep);
    assert(one.filter(keep) =~= Seq::empty()) by {
        reveal(Seq::filter);
        assert(one.drop_last().filter(keep) =~= Seq::empty());
    }
    assert(left.filter(keep) + one.filter(keep) =~= left.filter(keep));
}

/// Whether `name` has the shape of a root hub's name, which begins with a
/// letter.
pub open spec fn is_root_hub_name(name: Seq<char>) -> bool {
    name.len() > 0 && (('a' <= name[0] && name[0] <= 'z') || ('A' <= name[0] && name[0] <= 'Z'))
}

/// Whether `name` has the shape of an interface's name, which holds a `:`.
pub open spec fn is_interface_name(name: Seq<char>) -> bool {
    name.contains(':')
}

/// A name of the shape of a device's name is neither the name of a root
/// hub nor that of an interface.
pub proof fn lemma_device_names_are_no_others(name: Seq<char>)
    requires
        is_device_name(name),
    ensures
        !is_root_hub_name(name),
        !is_interface_name(name),
{
    if name.len() > 0 {
        assert(is_device_name_char(name[0]));
    }
    if name.contains(':') {
        let k = choose|k: int| 0 <= k < name.len() && name[k] == ':';
        assert(is_device_name_char(name[k]));
    }
}

/// No entry that enumeration lists has the name of a root hub or of an
/// interface.
pub proof fn lemma_listed_are_devices(entries: Seq<SysfsPath>, i: int)
    requires
        0 <= i < listed(entries).len(),
    ensures
        is_device_name(listed(entries)[i].node.name@),
        !is_root_hub_name(listed(entries)[i].node.name@),
        !is_interface_name(listed(entries)[i].node.name@),
{
    let keep = |p: SysfsPath| is_listed(p);
    entries.lemma_filter_pred(keep, i);
    lemma_device_names_are_no_others(listed(entries)[i].node.name@);
}

} // verus!
