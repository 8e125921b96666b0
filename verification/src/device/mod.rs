//! Decisions of the Quantis device adapter: which of the attached devices to
//! open, how a read is cut into bulk transfers, what a device's descriptor
//! says of it, and when a device counts as alive. The transfers themselves
//! are the caller's.

pub mod bias_correction;

use vstd::prelude::*;

verus! {

/// USB vendor identifier of a Quantis device.
pub const VENDOR_ID: u16 = 0x0aba;

/// USB product identifier of a Quantis device.
pub const PRODUCT_ID: u16 = 0x0102;

/// Address of the bulk IN endpoint that entropy is read from.
pub const ENDPOINT_IN: u8 = 0x81;

/// Time allowed for one bulk transfer, in milliseconds.
pub const TIMEOUT_MS: u64 = 5000;

/// Most bytes asked for in one bulk transfer.
pub const MAX_TRANSFER: usize = 65536;

/// Bytes read to probe a device's health.
pub const HEALTH_SAMPLE: usize = 16;

/// What can go wrong with the device.
#[derive(Debug, Clone, PartialEq, Eq)]
pub enum QuantisError {
    /// The USB transport failed; the text is the transport's own account.
    Usb(String),
    /// No Quantis device at the index asked for.
    DeviceNotFound,
    /// A bulk transfer brought nothing before the read was complete.
    Timeout,
    /// The device answered with something that is no entropy.
    InvalidResponse,
}

impl QuantisError {
    /// The text of the error.
    pub open spec fn message_spec(&self) -> Seq<char> {
        match self {
            QuantisError::Usb(text) => "USB error: "@ + text@,
            QuantisError::DeviceNotFound => "Device not found"@,
            QuantisError::Timeout => "Read timeout"@,
            QuantisError::InvalidResponse => "Invalid response from device"@,
        }
    }

    /// The text of the error, as it is shown to users.
    pub fn message(&self) -> (text: String)
        ensures
            text@ == self.message_spec(),
    {
        match self {
            QuantisError::Usb(text) => String::from_str("USB error: ").concat(text.as_str()),
            QuantisError::DeviceNotFound => String::from_str("Device not found"),
            QuantisError::Timeout => String::from_str("Read timeout"),
            QuantisError::InvalidResponse => String::from_str("Invalid response from device"),
        }
    }
}

/// Vendor and product identifier of an attached USB device.
#[derive(Debug, Clone, Copy, PartialEq, Eq, Structural)]
pub struct UsbId {
    pub vendor_id: u16,
    pub product_id: u16,
}

/// An attached device is a Quantis. One whose descriptor could not be read,
/// given as `None`, is none.
pub open spec fn is_quantis(id: Option<UsbId>) -> bool {
    id matches Some(usb) && usb.vendor_id == VENDOR_ID && usb.product_id == PRODUCT_ID
}

/// Number of Quantis devices among `ids`.
pub open spec fn quantis_count(ids: Seq<Option<UsbId>>) -> nat
    decreases ids.len(),
{
    if ids.len() == 0 {
        0
    } else {
        quantis_count(ids.drop_last()) + if is_quantis(ids.last()) {
            1nat
        } else {
            0nat
        }
    }
}

/// Position, among the attached devices `ids` in the order of enumeration, of
/// the Quantis device with index `index`, the first Quantis having index 0.
/// `DeviceNotFound` where fewer than `index + 1` Quantis devices are attached.
pub fn select_device(ids: &[Option<UsbId>], index: usize) -> (found: Result<usize, QuantisError>)
    ensures
        found is Ok <==> index < quantis_count(ids@),
        found matches Ok(at) ==> at < ids@.len() && is_quantis(ids@[at as int]) && quantis_count(
            ids@.take(at as int),
        ) == index,
        found matches Err(error) ==> error is DeviceNotFound,
{
    let len = ids.len();
    let mut seen: usize = 0;
    let mut at: usize = 0;
    while at < len
        invariant
            len == ids@.len(),
            at <= len,
            seen == quantis_count(ids@.take(at as int)),
            seen <= index,
            seen <= at,
        decreases len - at,
    {
        proof {
            assert(ids@.take(at + 1).drop_last() =~= ids@.take(at as int));
        }
        let matches_quantis = match ids[at] {
            Some(usb) => usb.vendor_id == VENDOR_ID && usb.product_id == PRODUCT_ID,
            None => false,
        };
        if matches_quantis {
            if seen == index {
                proof {
                    lemma_quantis_count_grows(ids@, (at + 1) as int);
                }
                return Ok(at);
            }
            seen = seen + 1;
        }
        at = at + 1;
    }
    assert(ids@.take(len as int) =~= ids@);
    Err(QuantisError::DeviceNotFound)
}

/// A longer list of devices holds no fewer Quantis devices than its start.
pub proof fn lemma_quantis_count_grows(ids: Seq<Option<UsbId>>, n: int)
    requires
        0 <= n <= ids.len(),
    ensures
        quantis_count(ids.take(n)) <= quantis_count(ids),
    decreases ids.len(),
{
    if n < ids.len() {
        lemma_quantis_count_grows(ids.drop_last(), n);
        assert(ids.drop_last().take(n) =~= ids.take(n));
    } else {
        assert(ids.take(n) =~= ids);
    }
}

/// Bytes asked for in the next bulk transfer of a read of `size` bytes of
/// which `received` are there: what is missing, at most `MAX_TRANSFER`.
pub open spec fn chunk_len(size: nat, received: nat) -> nat {
    if size - received < MAX_TRANSFER {
        (size - received) as nat
    } else {
        MAX_TRANSFER as nat
    }
}

/// Progress of one read of a fixed number of bytes, which is made of bulk
/// transfers of at most `MAX_TRANSFER` bytes each.
pub struct BulkRead {
    size: usize,
    total_read: usize,
}

impl BulkRead {
    #[verifier::type_invariant]
    spec fn inv(&self) -> bool {
        self.total_read <= self.size
    }

    /// Bytes that the read is to bring.
    pub closed spec fn size(&self) -> nat {
        self.size as nat
    }

    /// Bytes that the transfers so far have brought.
    pub closed spec fn received(&self) -> nat {
        self.total_read as nat
    }

    /// Start a read of `size` bytes.
    pub fn new(size: usize) -> (read: Self)
        ensures
            read.size() == size,
            read.received() == 0,
    {
        BulkRead { size, total_read: 0 }
    }

    /// Where in the buffer the next transfer puts its bytes.
    pub fn offset(&self) -> (offset: usize)
        ensures
            offset == self.received(),
            offset <= self.size(),
    {
        proof {
            use_type_invariant(self);
        }
        self.total_read
    }

    /// Bytes to ask for in the next transfer; 0 when the read is complete,
    /// and then only.
    pub fn next_chunk(&self) -> (len: usize)
        ensures
            len == chunk_len(self.size(), self.received()),
            len == 0 <==> self.received() == self.size(),
            self.received() + len <= self.size(),
    {
        proof {
            use_type_invariant(self);
        }
        let missing = self.size - self.total_read;
        if missing < MAX_TRANSFER {
            missing
        } else {
            MAX_TRANSFER
        }
    }

    /// A transfer that was asked for `next_chunk()` bytes brought
    /// `bytes_read`. None at all is a timeout, and the read has failed;
    /// otherwise they count towards the read.
    pub fn on_transfer(&mut self, bytes_read: usize) -> (outcome: Result<(), QuantisError>)
        requires
            bytes_read <= chunk_len(old(self).size(), old(self).received()),
            old(self).received() < old(self).size(),
        ensures
            final(self).size() == old(self).size(),
            bytes_read == 0 ==> (outcome matches Err(error) && error is Timeout),
            bytes_read == 0 ==> final(self).received() == old(self).received(),
            bytes_read > 0 ==> outcome is Ok,
            bytes_read > 0 ==> final(self).received() == old(self).received() + bytes_read,
    {
        proof {
            use_type_invariant(&*self);
        }
        if bytes_read == 0 {
            return Err(QuantisError::Timeout);
        }
        self.total_read = self.total_read + bytes_read;
        Ok(())
    }
}

/// Some byte of `data` differs from the first.
pub open spec fn varies(data: Seq<u8>) -> bool {
    exists|i: int| 0 <= i < data.len() && #[trigger] data[i] != data[0]
}

/// Whether some byte of `data` differs from the first.
pub fn bytes_vary(data: &[u8]) -> (vary: bool)
    ensures
        vary == varies(data@),
{
    let mut i: usize = 0;
    while i < data.len()
        invariant
            i <= data.len(),
            forall|j: int| 0 <= j < i ==> #[trigger] data@[j] == data@[0],
        decreases data.len() - i,
    {
        if data[i] != data[0] {
            assert(data@[i as int] != data@[0]);
            return true;
        }
        i = i + 1;
    }
    false
}

/// Whether the device is alive, told from what a read of `HEALTH_SAMPLE`
/// bytes brought: it is if the read went well and not all bytes are the same.
pub fn health_check(sample: &Result<Vec<u8>, QuantisError>) -> (healthy: bool)
    ensures
        healthy <==> (sample matches Ok(data) && varies(data@)),
{
    match sample {
        Ok(data) => bytes_vary(data.as_slice()),
        Err(_) => false,
    }
}

/// The decimal digit for `d`, `d` being below 10.
pub open spec fn digit_char(d: int) -> char {
    ((0x30 + d) as u8) as char
}

/// `n` in decimal, without leading zeros.
pub open spec fn decimal_text(n: nat) -> Seq<char>
    decreases n,
{
    if n < 10 {
        seq![digit_char(n as int)]
    } else {
        decimal_text(n / 10).push(digit_char((n % 10) as int))
    }
}

/// A descriptor string as it is reported: the string, or `Unknown` where the
/// device gave none.
pub open spec fn text_or_unknown(text: Option<String>) -> Seq<char> {
    match text {
        Some(text) => text@,
        None => "Unknown"@,
    }
}

/// A device release as it is reported: major and minor number in decimal
/// with a dot between them.
pub open spec fn version_text(major: u8, minor: u8) -> Seq<char> {
    decimal_text(major as nat) + seq!['.'] + decimal_text(minor as nat)
}

fn digit_str(d: u8) -> (text: &'static str)
    requires
        d < 10,
    ensures
        text@ == seq![digit_char(d as int)],
{
    proof {
        reveal_strlit("0");
        reveal_strlit("1");
        reveal_strlit("2");
        reveal_strlit("3");
        reveal_strlit("4");
        reveal_strlit("5");
        reveal_strlit("6");
        reveal_strlit("7");
        reveal_strlit("8");
        reveal_strlit("9");
    }
    let text = if d == 0 {
        "0"
    } else if d == 1 {
        "1"
    } else if d == 2 {
        "2"
    } else if d == 3 {
        "3"
    } else if d == 4 {
        "4"
    } else if d == 5 {
        "5"
    } else if d == 6 {
        "6"
    } else if d == 7 {
        "7"
    } else if d == 8 {
        "8"
    } else {
        "9"
    };
    assert(text@ =~= seq![digit_char(d as int)]);
    text
}

/// Appends `n` in decimal to `text`.
fn push_decimal(text: &mut String, n: u8)
    ensures
        final(text)@ == old(text)@ + decimal_text(n as nat),
{
    let ghost before = text@;
    proof {
        reveal_with_fuel(decimal_text, 3);
    }
    if n >= 100 {
        text.append(digit_str(n / 100));
    }
    if n >= 10 {
        text.append(digit_str((n / 10) % 10));
    }
    text.append(digit_str(n % 10));
    assert(text@ =~= before + decimal_text(n as nat));
}

/// What a device says of itself.
#[derive(Debug, Clone, PartialEq, Eq)]
pub struct DeviceInfo {
    pub product: String,
    pub serial: String,
    pub version: String,
}

impl DeviceInfo {
    /// The information on a device, from what its descriptor holds: the
    /// product and serial strings, each `None` where it could not be read,
    /// and the major and minor number of the device release.
    pub fn from_descriptor(
        product: Option<String>,
        serial: Option<String>,
        major: u8,
        minor: u8,
    ) -> (info: DeviceInfo)
        ensures
            info.product@ == text_or_unknown(product),
            info.serial@ == text_or_unknown(serial),
            info.version@ == version_text(major, minor),
    {
        let product = match product {
            Some(text) => text,
            None => String::from_str("Unknown"),
        };
        let serial = match serial {
            Some(text) => text,
            None => String::from_str("Unknown"),
        };
        let mut version = String::new();
        push_decimal(&mut version, major);
        version.append(".");
        push_decimal(&mut version, minor);
        proof {
            reveal_strlit(".");
            assert("."@ =~= seq!['.']);
            assert(version@ =~= version_text(major, minor));
        }
        DeviceInfo { product, serial, version }
    }
}

} // verus!
