//! Discovered peripherals, lookups among them, and the choice of the characteristic that
//! carries requests and responses.

use vstd::prelude::*;

verus! {

/// A peripheral seen while scanning.
#[derive(Clone, Debug)]
pub struct BluetoothDevice {
    pub addr: String,
    pub local_name: Option<String>,
}

/// Characteristic property bit: write without acknowledgement.
pub const WRITE_WITHOUT_RESPONSE: u8 = 0x04;

/// Characteristic property bit: write with acknowledgement.
pub const WRITE: u8 = 0x08;

/// Characteristic property bit: notifications.
pub const NOTIFY: u8 = 0x10;

/// Characteristic property bit: indications.
pub const INDICATE: u8 = 0x20;

/// Whether a characteristic with property bits `flags` can carry requests (some write
/// mode) and responses (some push mode).
pub open spec fn carries_requests(flags: u8) -> bool {
    (flags & (WRITE | WRITE_WITHOUT_RESPONSE)) != 0 && (flags & (NOTIFY | INDICATE)) != 0
}

/// The lowercase form of `s`, as `str::to_lowercase` computes it.
pub uninterp spec fn lowercase_of(s: Seq<char>) -> Seq<char>;

/// Relies on `str::to_lowercase`: its result depends on the characters of `s` alone.
#[verifier::external_body]
fn to_lowercase(s: &str) -> (r: String)
    ensures
        r@ == lowercase_of(s@),
{
    s.to_lowercase()
}

/// `i` is the first position of `keys` that holds `wanted`.
pub open spec fn is_first_equal(keys: Seq<Seq<char>>, wanted: Seq<char>, i: int) -> bool {
    &&& 0 <= i < keys.len()
    &&& keys[i] == wanted
    &&& forall|j: int| 0 <= j < i ==> #[trigger] keys[j] != wanted
}

/// Whether `device` advertises the local name `name`.
pub open spec fn has_name(device: BluetoothDevice, name: Seq<char>) -> bool {
    device.local_name matches Some(n) && n@ == name
}

/// `i` is the first device of `devices` whose local name is `name`.
pub open spec fn is_first_named(devices: Seq<BluetoothDevice>, name: Seq<char>, i: int) -> bool {
    &&& 0 <= i < devices.len()
    &&& has_name(devices[i], name)
    &&& forall|j: int| 0 <= j < i ==> !has_name(#[trigger] devices[j], name)
}

/// `i` is the first device of `devices` whose address equals `addr` ignoring case.
pub open spec fn is_first_with_addr(devices: Seq<BluetoothDevice>, addr: Seq<char>, i: int) -> bool {
    &&& 0 <= i < devices.len()
    &&& lowercase_of(devices[i].addr@) == lowercase_of(addr)
    &&& forall|j: int|
        0 <= j < i ==> lowercase_of(#[trigger] devices[j].addr@) != lowercase_of(addr)
}

impl BluetoothDevice {
    /// A copy with equal fields.
    fn duplicate(&self) -> (r: Self)
        ensures
            r == *self,
    {
        BluetoothDevice { addr: self.addr.clone(), local_name: self.get_local_name() }
    }

    /// The advertised local name, if any.
    pub fn get_local_name(&self) -> (r: Option<String>)
        ensures
            r == self.local_name,
    {
        match &self.local_name {
            Some(n) => Some(n.clone()),
            None => None,
        }
    }

    /// The peripheral's address.
    pub fn get_addr(&self) -> (r: String)
        ensures
            r == self.addr,
    {
        self.addr.clone()
    }
}

/// The first position of `keys` equal to `wanted`, if any.
pub fn first_equal(keys: &Vec<String>, wanted: &String) -> (r: Option<usize>)
    ensures
        match r {
            Some(i) => is_first_equal(keys@.map_values(|k: String| k@), wanted@, i as int),
            None => forall|j: int| 0 <= j < keys@.len() ==> keys@[j]@ != wanted@,
        },
{
    let mut i: usize = 0;
    while i < keys.len()
        invariant
            i <= keys@.len(),
            forall|j: int| 0 <= j < i ==> keys@[j]@ != wanted@,
        decreases keys@.len() - i,
    {
        if keys[i] == *wanted {
            return Some(i);
        }
        i = i + 1;
    }
    None
}

/// The devices found by one scan, in discovery order.
pub struct ScanResult {
    scanned_devices: Vec<BluetoothDevice>,
}

impl View for ScanResult {
    type V = Seq<BluetoothDevice>;

    closed spec fn view(&self) -> Seq<BluetoothDevice> {
        self.scanned_devices@
    }
}

impl ScanResult {
    /// The result of a scan that found `scanned_devices`, in that order.
    pub fn new(scanned_devices: Vec<BluetoothDevice>) -> (r: Self)
        ensures
            r@ == scanned_devices@,
    {
        ScanResult { scanned_devices }
    }

    /// Number of devices found.
    pub fn len(&self) -> (r: usize)
        ensures
            r == self@.len(),
    {
        self.scanned_devices.len()
    }

    /// The first device whose local name is exactly `name`.
    pub fn search_by_name(&self, name: String) -> (r: Option<BluetoothDevice>)
        ensures
            match r {
                Some(d) => exists|i: int| is_first_named(self@, name@, i) && d == self@[i],
                None => forall|j: int|
                    0 <= j < self@.len() ==> !has_name(#[trigger] self@[j], name@),
            },
    {
        let mut i: usize = 0;
        while i < self.scanned_devices.len()
            invariant
                i <= self@.len(),
                forall|j: int|
                    0 <= j < i ==> !has_name(#[trigger] self@[j], name@),
            decreases self@.len() - i,
        {
            let device = &self.scanned_devices[i];
            match &device.local_name {
                Some(n) => {
                    if *n == name {
                        assert(is_first_named(self@, name@, i as int));
                        return Some(device.duplicate());
                    }
                },
                None => {},
            }
            i = i + 1;
        }
        None
    }

    /// The first device whose address equals `id`, ignoring case.
    pub fn search_by_addr(&self, id: String) -> (r: Option<BluetoothDevice>)
        ensures
            match r {
                Some(d) => exists|i: int| is_first_with_addr(self@, id@, i) && d == self@[i],
                None => forall|j: int|
                    0 <= j < self@.len() ==> lowercase_of(#[trigger] self@[j].addr@)
                        != lowercase_of(id@),
            },
    {
        let wanted = to_lowercase(id.as_str());
        let mut keys: Vec<String> = Vec::new();
        let mut i: usize = 0;
        while i < self.scanned_devices.len()
            invariant
                i <= self@.len(),
                keys@.len() == i,
                forall|j: int| 0 <= j < i ==> #[trigger] keys@[j]@ == lowercase_of(self@[j].addr@),
            decreases self@.len() - i,
        {
            keys.push(to_lowercase(self.scanned_devices[i].addr.as_str()));
            i = i + 1;
        }
        match first_equal(&keys, &wanted) {
            Some(k) => {
                assert(keys@.map_values(|k: String| k@)[k as int] == keys@[k as int]@);
                assert forall|j: int| 0 <= j < k implies lowercase_of(self@[j].addr@)
                    != lowercase_of(id@) by {
                    assert(keys@.map_values(|k: String| k@)[j] == keys@[j]@);
                }
                assert(is_first_with_addr(self@, id@, k as int));
                Some(self.scanned_devices[k].duplicate())
            },
            None => {
                assert forall|j: int| 0 <= j < self@.len() implies lowercase_of(
                    #[trigger] self@[j].addr@,
                ) != lowercase_of(id@) by {
                    assert(keys@[j]@ == lowercase_of(self@[j].addr@));
                }
                None
            },
        }
    }
}

/// Whether a characteristic with property bits `flags` can carry requests and responses.
pub fn is_request_characteristic(flags: u8) -> (r: bool)
    ensures
        r == carries_requests(flags),
{
    (flags & (WRITE | WRITE_WITHOUT_RESPONSE)) != 0 && (flags & (NOTIFY | INDICATE)) != 0
}

/// The first of the discovered characteristics, given by their property bits, that can
/// carry requests and responses.
pub fn select_characteristic(flags: &Vec<u8>) -> (r: Option<usize>)
    ensures
        match r {
            Some(i) => i < flags@.len() && carries_requests(flags@[i as int]) && forall|j: int|
                0 <= j < i ==> !carries_requests(#[trigger] flags@[j]),
            None => forall|j: int| 0 <= j < flags@.len() ==> !carries_requests(#[trigger] flags@[j]),
        },
{
    let mut i: usize = 0;
    while i < flags.len()
        invariant
            i <= flags@.len(),
            forall|j: int| 0 <= j < i ==> !carries_requests(#[trigger] flags@[j]),
        decreases flags@.len() - i,
    {
        if is_request_characteristic(flags[i]) {
            return Some(i);
        }
        i = i + 1;
    }
    None
}

} // verus!
