//! Serial port configuration, port descriptions, and a session-less
//! registry of open connections.
//!
//! - [`PortInfo::from_os`] describes a port the operating system reports.
//! - [`ensure_valid_baud_rate`] decides which baud rates may be opened.
//! - [`ConnectionManager`] holds the open connections indexed by id and
//!   rejects double-opens of the same port.
use crate::error::SerialError;
use crate::text::{hex_upper, hex_upper_char, push_char, push_str};
use vstd::prelude::*;
use vstd::string::*;

verus! {

/// Largest baud rate accepted by [`ensure_valid_baud_rate`]. Anything higher
/// is treated as a typo or accidental overflow and rejected.
pub const MAX_BAUD_RATE: u32 = 4_000_000;

// ---- Configuration enums -----------------------------------------------------

#[derive(Debug, Clone, Copy, PartialEq, Eq, Structural)]
pub enum DataBits {
    Five,
    Six,
    Seven,
    Eight,
}

#[derive(Debug, Clone, Copy, PartialEq, Eq, Structural)]
pub enum StopBits {
    One,
    Two,
}

#[derive(Debug, Clone, Copy, PartialEq, Eq, Structural)]
pub enum Parity {
    NoParity,
    Odd,
    Even,
}

#[derive(Debug, Clone, Copy, PartialEq, Eq, Structural)]
pub enum FlowControl {
    NoFlowControl,
    Software,
    Hardware,
}

/// Which OS buffers a flush discards.
#[derive(Debug, Clone, Copy, PartialEq, Eq, Structural)]
pub enum FlushTarget {
    Input,
    Output,
    Both,
}

/// Concrete parameters required to open a serial port.
#[derive(Debug, Clone)]
pub struct ConnectionConfig {
    pub port: String,
    pub baud_rate: u32,
    pub data_bits: DataBits,
    pub stop_bits: StopBits,
    pub parity: Parity,
    pub flow_control: FlowControl,
}

/// Whether a baud rate may be used to open a port.
pub open spec fn valid_baud_rate(baud_rate: u32) -> bool {
    0 < baud_rate <= MAX_BAUD_RATE
}

/// Rejects a zero baud rate and any above [`MAX_BAUD_RATE`].
pub fn ensure_valid_baud_rate(baud_rate: u32) -> (r: Result<(), SerialError>)
    ensures
        r is Ok <==> valid_baud_rate(baud_rate),
        r matches Err(e) ==> (e matches SerialError::InvalidBaudRate(b) && b == baud_rate),
{
    if baud_rate == 0 || baud_rate > MAX_BAUD_RATE {
        Err(SerialError::InvalidBaudRate(baud_rate))
    } else {
        Ok(())
    }
}

// ---- Port descriptions -------------------------------------------------------

/// What the operating system reports about the kind of a serial port.
#[derive(Debug, Clone)]
pub enum PortKind {
    Usb { vid: u16, pid: u16, manufacturer: Option<String>, product: Option<String> },
    Pci,
    Bluetooth,
    Unknown,
}

/// Information about a serial port reported by the OS.
#[derive(Debug, Clone)]
pub struct PortInfo {
    pub name: String,
    pub description: String,
    pub hardware_id: Option<String>,
}

/// Four uppercase hex digits, as `{:04X}` writes a `u16`.
pub open spec fn hex4_upper(v: u16) -> Seq<char> {
    seq![
        hex_upper((v / 4096) as nat),
        hex_upper(((v / 256) % 16) as nat),
        hex_upper(((v / 16) % 16) as nat),
        hex_upper((v % 16) as nat),
    ]
}

/// The text of an optional string, or the default when absent.
pub open spec fn text_or(s: Option<String>, default: Seq<char>) -> Seq<char> {
    match s {
        Some(t) => t@,
        None => default,
    }
}

/// The hardware id shown for a port kind.
pub open spec fn hardware_id_text(kind: PortKind) -> Option<Seq<char>> {
    match kind {
        PortKind::Usb { vid, pid, .. } => Some(
            "USB VID:"@ + hex4_upper(vid) + " PID:"@ + hex4_upper(pid),
        ),
        PortKind::Pci => Some("PCI"@),
        PortKind::Bluetooth => Some("Bluetooth"@),
        PortKind::Unknown => None,
    }
}

/// The description shown for a port kind.
pub open spec fn description_text(kind: PortKind) -> Seq<char> {
    match kind {
        PortKind::Usb { manufacturer, product, .. } => text_or(manufacturer, "Unknown"@)
            + " "@ + text_or(product, "USB Serial Device"@),
        PortKind::Pci => "PCI Serial Port"@,
        PortKind::Bluetooth => "Bluetooth Serial Port"@,
        PortKind::Unknown => "Serial Port"@,
    }
}

fn push_hex4_upper(s: &mut String, v: u16)
    ensures
        final(s)@ == old(s)@ + hex4_upper(v),
{
    push_char(s, hex_upper_char((v / 4096) as u8));
    push_char(s, hex_upper_char(((v / 256) % 16) as u8));
    push_char(s, hex_upper_char(((v / 16) % 16) as u8));
    push_char(s, hex_upper_char((v % 16) as u8));
}

/// The hardware id of a port: USB vendor and product ids, or the bus.
pub fn format_hardware_id(kind: &PortKind) -> (r: Option<String>)
    ensures
        match r {
            Some(s) => hardware_id_text(*kind) == Some(s@),
            None => hardware_id_text(*kind) is None,
        },
{
    match kind {
        PortKind::Usb { vid, pid, .. } => {
            let mut s = String::from_str("USB VID:");
            push_hex4_upper(&mut s, *vid);
            push_str(&mut s, " PID:");
            push_hex4_upper(&mut s, *pid);
            Some(s)
        },
        PortKind::Pci => Some(String::from_str("PCI")),
        PortKind::Bluetooth => Some(String::from_str("Bluetooth")),
        PortKind::Unknown => None,
    }
}

/// A one-line description of a port.
pub fn describe_port(kind: &PortKind) -> (s: String)
    ensures
        s@ == description_text(*kind),
{
    match kind {
        PortKind::Usb { manufacturer, product, .. } => {
            let mut s = match manufacturer {
                Some(m) => m.clone(),
                None => String::from_str("Unknown"),
            };
            push_str(&mut s, " ");
            match product {
                Some(p) => push_str(&mut s, p.as_str()),
                None => push_str(&mut s, "USB Serial Device"),
            }
            s
        },
        PortKind::Pci => String::from_str("PCI Serial Port"),
        PortKind::Bluetooth => String::from_str("Bluetooth Serial Port"),
        PortKind::Unknown => String::from_str("Serial Port"),
    }
}

impl PortInfo {
    /// The description of a port the operating system reported.
    pub fn from_os(name: String, kind: &PortKind) -> (p: PortInfo)
        ensures
            p.name@ == name@,
            p.description@ == description_text(*kind),
            match p.hardware_id {
                Some(h) => hardware_id_text(*kind) == Some(h@),
                None => hardware_id_text(*kind) is None,
            },
    {
        PortInfo { hardware_id: format_hardware_id(kind), description: describe_port(kind), name }
    }
}

/// A baud rate is accepted exactly when it lies in `1..=4_000_000`.
pub proof fn law_baud_rate_range(b: u32)
    ensures
        valid_baud_rate(b) <==> 1 <= b && b <= 4_000_000,
        MAX_BAUD_RATE == 4_000_000,
{
}

/// The description of a USB port is the manufacturer (or `Unknown`), one
/// space, and the product (or `USB Serial Device`), each part independent
/// of the other.
pub proof fn law_usb_description(
    vid: u16,
    pid: u16,
    manufacturer: Option<String>,
    product: Option<String>,
)
    ensures
        ({
            let d = description_text(PortKind::Usb { vid, pid, manufacturer, product });
            let m = match manufacturer {
                Some(t) => t@,
                None => "Unknown"@,
            };
            let p = match product {
                Some(t) => t@,
                None => "USB Serial Device"@,
            };
            &&& (m + " "@).is_prefix_of(d)
            &&& (" "@ + p).is_suffix_of(d)
            &&& d.len() == m.len() + 1 + p.len()
        }),
{
    reveal_strlit(" ");
    let d = description_text(PortKind::Usb { vid, pid, manufacturer, product });
    let m = text_or(manufacturer, "Unknown"@);
    let p = text_or(product, "USB Serial Device"@);
    assert(d =~= m + " "@ + p);
    assert((m + " "@) =~= d.subrange(0, (m + " "@).len() as int));
    assert((" "@ + p) =~= d.subrange(d.len() - (" "@ + p).len(), d.len() as int));
}

// ---- Multi-connection registry ----------------------------------------------

/// Whether some connection in the map is on this port.
pub open spec fn map_has_port<C>(m: Map<Seq<char>, (Seq<char>, C)>, port: Seq<char>) -> bool {
    exists|id: Seq<char>| #[trigger] m.contains_key(id) && m[id].0 == port
}

/// No two connections in the map share a port.
pub open spec fn ports_distinct<C>(m: Map<Seq<char>, (Seq<char>, C)>) -> bool {
    forall|a: Seq<char>, b: Seq<char>|
        #[trigger] m.contains_key(a) && #[trigger] m.contains_key(b) && a != b ==> m[a].0 != m[b].0
}

/// An open connection in the registry.
pub struct OpenEntry<C> {
    pub id: String,
    pub port: String,
    pub conn: C,
}

/// A connection as the `serial://connections` resources show it.
#[derive(Debug, Clone)]
pub struct ConnectionSummary {
    pub connection_id: String,
    pub port: String,
    pub latest_read: Option<String>,
}

/// Registry of currently open serial connections, indexed by an opaque
/// connection id. Rejects opening the same port twice.
pub struct ConnectionManager<C> {
    entries: Vec<OpenEntry<C>>,
}

impl<C> ConnectionManager<C> {
    /// No two entries share an id, and no two share a port.
    #[verifier::type_invariant]
    spec fn well_formed(self) -> bool {
        &&& forall|i: int, j: int|
            0 <= i < j < self.entries@.len() ==> #[trigger] self.entries@[i].id@
                != #[trigger] self.entries@[j].id@
        &&& forall|i: int, j: int|
            0 <= i < j < self.entries@.len() ==> #[trigger] self.entries@[i].port@
                != #[trigger] self.entries@[j].port@
    }

    /// Whether some entry has this id.
    pub closed spec fn has_id(self, id: Seq<char>) -> bool {
        exists|i: int| 0 <= i < self.entries@.len() && self.entries@[i].id@ == id
    }

    /// The open connections: id to (port, connection).
    pub closed spec fn model(self) -> Map<Seq<char>, (Seq<char>, C)> {
        Map::new(
            |id: Seq<char>| self.has_id(id),
            |id: Seq<char>|
                {
                    let i = choose|i: int| 0 <= i < self.entries@.len() && self.entries@[i].id@ == id;
                    (self.entries@[i].port@, self.entries@[i].conn)
                },
        )
    }

    /// Whether a connection on this port is open.
    pub open spec fn port_open(self, port: Seq<char>) -> bool {
        map_has_port(self.model(), port)
    }

    proof fn lemma_model_at(self, i: int)
        requires
            self.well_formed(),
            0 <= i < self.entries@.len(),
        ensures
            self.model().contains_key(self.entries@[i].id@),
            self.model()[self.entries@[i].id@] == (self.entries@[i].port@, self.entries@[i].conn),
    {
        let id = self.entries@[i].id@;
        assert(self.has_id(id));
        let j = choose|j: int| 0 <= j < self.entries@.len() && self.entries@[j].id@ == id;
        if j != i {
            if j < i {
                assert(self.entries@[j].id@ != self.entries@[i].id@);
            } else {
                assert(self.entries@[i].id@ != self.entries@[j].id@);
            }
        }
    }

    proof fn lemma_model_keys(self, id: Seq<char>) -> (i: int)
        requires
            self.well_formed(),
            self.model().contains_key(id),
        ensures
            0 <= i < self.entries@.len(),
            self.entries@[i].id@ == id,
            self.model()[id] == (self.entries@[i].port@, self.entries@[i].conn),
    {
        assert(self.has_id(id));
        let i = choose|i: int| 0 <= i < self.entries@.len() && self.entries@[i].id@ == id;
        self.lemma_model_at(i);
        i
    }

    /// An empty registry.
    pub fn new() -> (m: Self)
        ensures
            m.model() == Map::<Seq<char>, (Seq<char>, C)>::empty(),
    {
        let m = ConnectionManager { entries: Vec::new() };
        assert(m.model() =~= Map::<Seq<char>, (Seq<char>, C)>::empty());
        m
    }

    /// The number of open connections.
    pub fn count(&self) -> (n: usize)
        ensures
            n == self.model().len(),
    {
        proof {
            use_type_invariant(self);
            self.lemma_len();
        }
        self.entries.len()
    }

    proof fn lemma_len(self)
        requires
            self.well_formed(),
        ensures
            self.model().dom().finite(),
            self.model().len() == self.entries@.len(),
    {
        let ids = Seq::new(self.entries@.len(), |i: int| self.entries@[i].id@);
        assert forall|id: Seq<char>| self.model().contains_key(id) <==> ids.contains(id) by {
            if self.model().contains_key(id) {
                let i = self.lemma_model_keys(id);
                assert(ids[i] == id);
            }
            if ids.contains(id) {
                let i = choose|i: int| 0 <= i < ids.len() && ids[i] == id;
                self.lemma_model_at(i);
            }
        }
        assert(self.model().dom() =~= ids.to_set());
        assert(ids.no_duplicates()) by {
            assert forall|i: int, j: int| 0 <= i < ids.len() && 0 <= j < ids.len() && i != j
                implies ids[i] != ids[j] by {
                if i < j {
                    assert(self.entries@[i].id@ != self.entries@[j].id@);
                } else {
                    assert(self.entries@[j].id@ != self.entries@[i].id@);
                }
            }
        }
        ids.unique_seq_to_set();
    }

    proof fn lemma_ports_distinct(self)
        requires
            self.well_formed(),
        ensures
            ports_distinct(self.model()),
    {
        assert forall|a: Seq<char>, b: Seq<char>|
            #[trigger] self.model().contains_key(a) && #[trigger] self.model().contains_key(b) && a
                != b implies self.model()[a].0 != self.model()[b].0 by {
            let i = self.lemma_model_keys(a);
            let j = self.lemma_model_keys(b);
            assert(i != j);
            if i < j {
                assert(self.entries@[i].port@ != self.entries@[j].port@);
            } else {
                assert(self.entries@[j].port@ != self.entries@[i].port@);
            }
        }
    }

    /// Whether a connection on `port` is open.
    pub fn is_port_in_use(&self, port: &str) -> (r: bool)
        ensures
            r == self.port_open(port@),
    {
        proof {
            use_type_invariant(self);
        }
        let mut i: usize = 0;
        while i < self.entries.len()
            invariant
                self.well_formed(),
                i <= self.entries@.len(),
                forall|k: int| 0 <= k < i ==> self.entries@[k].port@ != port@,
            decreases self.entries@.len() - i,
        {
            if string_eq_str(&self.entries[i].port, port) {
                proof {
                    self.lemma_model_at(i as int);
                }
                return true;
            }
            i = i + 1;
        }
        proof {
            if self.port_open(port@) {
                let id = choose|id: Seq<char>|
                    #[trigger] self.model().contains_key(id) && self.model()[id].0 == port@;
                assert(self.model().contains_key(id));
                let k = self.lemma_model_keys(id);
            }
        }
        false
    }

    /// Opens a connection on `port` under a fresh random id and returns the
    /// id. Refused when a connection on the same port is open.
    pub fn open(&mut self, port: String, conn: C) -> (r: Result<String, SerialError>)
        ensures
            old(self).port_open(port@) ==> (r matches Err(e) && e matches SerialError::PortAlreadyOpen(p) && p@ == port@) && final(self).model() == old(self).model(),
            !old(self).port_open(port@) ==> (r matches Ok(i) && i@.len() == 36 && final(self).model() == old(self).model().insert(i@, (port@, conn))),
            ports_distinct(final(self).model()),
    {
        proof {
            use_type_invariant(&*self);
        }
        if self.is_port_in_use(port.as_str()) {
            proof {
                self.lemma_ports_distinct();
            }
            return Err(SerialError::PortAlreadyOpen(port));
        }
        let id = new_connection_id();
        let r = self.store(id, port, conn);
        proof {
            use_type_invariant(&*self);
            self.lemma_ports_distinct();
        }
        r
    }

    /// Stores a connection under `id`, replacing any entry with the same id.
    /// Refused when a connection on the same port is open.
    fn store(&mut self, id: String, port: String, conn: C) -> (r: Result<String, SerialError>)
        ensures
            old(self).port_open(port@) ==> (r matches Err(e) && e matches SerialError::PortAlreadyOpen(p) && p@ == port@) && final(self).model() == old(self).model(),
            !old(self).port_open(port@) ==> (r matches Ok(i) && i@ == id@) && final(self).model() == old(self).model().insert(id@, (port@, conn)),
    {
        proof {
            use_type_invariant(&*self);
        }
        if self.is_port_in_use(port.as_str()) {
            return Err(SerialError::PortAlreadyOpen(port));
        }
        let ghost old_self = *self;
        let ghost new_key = id@;
        let ghost new_port = port@;
        let ghost new_conn = conn;
        let mut entries = Vec::new();
        std::mem::swap(&mut entries, &mut self.entries);
        let ghost removed: int = -1;
        match find_in(&entries, id.as_str()) {
            Some(i) => {
                proof {
                    removed = i as int;
                }
                entries.remove(i);
            },
            None => {},
        }
        let ghost kept = entries@;
        let ghost old_entries = old_self.entries@;
        // position in the old entries of each kept entry
        let ghost src = |k: int| if removed >= 0 && k >= removed { k + 1 } else { k };
        proof {
            assert forall|k: int| 0 <= k < kept.len() implies 0 <= #[trigger] src(k) < old_entries.len()
                && kept[k] == old_entries[src(k)] && (removed < 0 || src(k) != removed) by {}
            assert(kept.len() == if removed >= 0 { old_entries.len() - 1 } else { old_entries.len() as int });
        }
        let out = id.clone();
        entries.push(OpenEntry { id, port, conn });
        let ghost new_entries = entries@;
        proof {
            let n = kept.len();
            assert forall|k: int| 0 <= k < n implies #[trigger] new_entries[k].id@ != new_key
                && new_entries[k].port@ != new_port by {
                let j = src(k);
                if removed < 0 {
                    assert(old_entries[j].id@ != new_key);
                } else if j < removed {
                    assert(old_entries[j].id@ != old_entries[removed].id@);
                } else {
                    assert(old_entries[removed].id@ != old_entries[j].id@);
                }
                old_self.lemma_model_at(j);
            }
            assert forall|a: int, b: int| 0 <= a < b < new_entries.len() implies
                #[trigger] new_entries[a].id@ != #[trigger] new_entries[b].id@ by {
                if b < n {
                    assert(src(a) < src(b));
                    assert(old_entries[src(a)].id@ != old_entries[src(b)].id@);
                } else {
                    assert(new_entries[b].id@ == new_key);
                    assert(new_entries[a].id@ != new_key);
                }
            }
            assert forall|a: int, b: int| 0 <= a < b < new_entries.len() implies
                #[trigger] new_entries[a].port@ != #[trigger] new_entries[b].port@ by {
                if b < n {
                    assert(src(a) < src(b));
                    assert(old_entries[src(a)].port@ != old_entries[src(b)].port@);
                } else {
                    assert(new_entries[b].port@ == new_port);
                    assert(new_entries[a].id@ != new_key);
                    assert(new_entries[a].port@ != new_port);
                }
            }
        }
        proof {
            assert(forall|i: int, j: int|
                0 <= i < j < new_entries.len() ==> #[trigger] new_entries[i].id@
                    != #[trigger] new_entries[j].id@);
            assert(forall|i: int, j: int|
                0 <= i < j < new_entries.len() ==> #[trigger] new_entries[i].port@
                    != #[trigger] new_entries[j].port@);
        }
        self.entries = entries;
        proof {
            let n = kept.len();
            assert(self.well_formed());
            let m_old = old_self.model();
            let m_new = self.model();
            let expected = m_old.insert(new_key, (new_port, new_conn));
            self.lemma_model_at(n as int);
            assert forall|k: Seq<char>| #[trigger] m_new.contains_key(k) <==> expected.contains_key(k) by {
                if k != new_key {
                    if m_new.contains_key(k) {
                        let j = self.lemma_model_keys(k);
                        assert(j < n);
                        old_self.lemma_model_at(src(j));
                    }
                    if m_old.contains_key(k) {
                        let j = old_self.lemma_model_keys(k);
                        assert(removed < 0 || j != removed);
                        let jk = if removed >= 0 && j > removed { j - 1 } else { j };
                        assert(src(jk) == j);
                        self.lemma_model_at(jk);
                    }
                }
            }
            assert forall|k: Seq<char>| #[trigger] m_new.contains_key(k) implies m_new[k] == expected[k] by {
                if k != new_key {
                    let j = self.lemma_model_keys(k);
                    assert(j < n);
                    old_self.lemma_model_at(src(j));
                }
            }
            assert(m_new =~= expected);
        }
        Ok(out)
    }

    /// Removes a connection. The connection is dropped with its entry.
    pub fn close(&mut self, id: &str) -> (r: Result<(), SerialError>)
        ensures
            old(self).model().contains_key(id@) ==> r is Ok && final(self).model() == old(self).model().remove(id@),
            !old(self).model().contains_key(id@) ==> (r matches Err(e) && e matches SerialError::ConnectionNotFound(s) && s@ == id@) && final(self).model() == old(self).model(),
            ports_distinct(final(self).model()),
    {
        proof {
            use_type_invariant(&*self);
        }
        let found = find_in(&self.entries, id);
        let i = match found {
            Some(i) => i,
            None => {
                proof {
                    if old(self).model().contains_key(id@) {
                        let k = self.lemma_model_keys(id@);
                    }
                    self.lemma_ports_distinct();
                }
                return Err(SerialError::ConnectionNotFound(id.to_owned()));
            },
        };
        let ghost old_self = *self;
        let ghost old_entries = self.entries@;
        let mut entries = Vec::new();
        std::mem::swap(&mut entries, &mut self.entries);
        entries.remove(i);
        let ghost new_entries = entries@;
        let ghost removed = i as int;
        let ghost src = |k: int| if k >= removed { k + 1 } else { k };
        proof {
            assert forall|k: int| 0 <= k < new_entries.len() implies 0 <= #[trigger] src(k)
                < old_entries.len() && new_entries[k] == old_entries[src(k)] && src(k) != removed by {}
            assert forall|a: int, b: int| 0 <= a < b < new_entries.len() implies
                #[trigger] new_entries[a].id@ != #[trigger] new_entries[b].id@ by {
                assert(src(a) < src(b));
                assert(old_entries[src(a)].id@ != old_entries[src(b)].id@);
            }
            assert forall|a: int, b: int| 0 <= a < b < new_entries.len() implies
                #[trigger] new_entries[a].port@ != #[trigger] new_entries[b].port@ by {
                assert(src(a) < src(b));
                assert(old_entries[src(a)].port@ != old_entries[src(b)].port@);
            }
        }
        self.entries = entries;
        proof {
            let m_old = old_self.model();
            let m_new = self.model();
            let expected = m_old.remove(id@);
            old_self.lemma_model_at(removed);
            assert forall|k: Seq<char>| #[trigger] m_new.contains_key(k) <==> expected.contains_key(k) by {
                if m_new.contains_key(k) {
                    let j = self.lemma_model_keys(k);
                    old_self.lemma_model_at(src(j));
                    if k == id@ {
                        if src(j) < removed {
                            assert(old_entries[src(j)].id@ != old_entries[removed].id@);
                        } else {
                            assert(old_entries[removed].id@ != old_entries[src(j)].id@);
                        }
                    }
                }
                if expected.contains_key(k) {
                    let j = old_self.lemma_model_keys(k);
                    assert(j != removed);
                    let jk = if j > removed { j - 1 } else { j };
                    assert(src(jk) == j);
                    self.lemma_model_at(jk);
                }
            }
            assert forall|k: Seq<char>| #[trigger] m_new.contains_key(k) implies m_new[k] == expected[k] by {
                let j = self.lemma_model_keys(k);
                old_self.lemma_model_at(src(j));
            }
            assert(m_new =~= expected);
        }
        proof {
            use_type_invariant(&*self);
            self.lemma_ports_distinct();
        }
        Ok(())
    }

    /// Looks up an open connection by id.
    pub fn get(&self, id: &str) -> (r: Result<&C, SerialError>)
        ensures
            match r {
                Ok(c) => self.model().contains_key(id@) && *c == self.model()[id@].1,
                Err(e) => !self.model().contains_key(id@) && (e matches SerialError::ConnectionNotFound(s) && s@ == id@),
            },
    {
        proof {
            use_type_invariant(self);
        }
        match find_in(&self.entries, id) {
            Some(i) => {
                proof {
                    self.lemma_model_at(i as int);
                }
                Ok(&self.entries[i].conn)
            },
            None => {
                proof {
                    if self.model().contains_key(id@) {
                        let k = self.lemma_model_keys(id@);
                    }
                }
                Err(SerialError::ConnectionNotFound(id.to_owned()))
            },
        }
    }

    /// A summary of every open connection, one per id.
    pub fn list_open(&self) -> (v: Vec<ConnectionSummary>)
        ensures
            v@.len() == self.model().len(),
            forall|i: int|
                0 <= i < v@.len() ==> self.model().contains_key(#[trigger] v@[i].connection_id@)
                    && self.model()[v@[i].connection_id@].0 == v@[i].port@ && v@[i].latest_read
                    is None,
            forall|i: int, j: int|
                0 <= i < j < v@.len() ==> #[trigger] v@[i].connection_id@
                    != #[trigger] v@[j].connection_id@,
    {
        proof {
            use_type_invariant(self);
            self.lemma_len();
        }
        let mut v: Vec<ConnectionSummary> = Vec::new();
        let mut i: usize = 0;
        while i < self.entries.len()
            invariant
                self.well_formed(),
                i <= self.entries@.len(),
                v@.len() == i,
                forall|k: int|
                    0 <= k < i ==> #[trigger] v@[k].connection_id@ == self.entries@[k].id@
                        && v@[k].port@ == self.entries@[k].port@ && v@[k].latest_read is None,
            decreases self.entries@.len() - i,
        {
            let e = &self.entries[i];
            let connection_id = e.id.clone();
            let port = e.port.clone();
            assert(connection_id@ == self.entries@[i as int].id@);
            assert(port@ == self.entries@[i as int].port@);
            let ghost before = v@;
            v.push(ConnectionSummary { connection_id, port, latest_read: None });
            assert forall|k: int| 0 <= k < i + 1 implies #[trigger] v@[k].connection_id@
                == self.entries@[k].id@ && v@[k].port@ == self.entries@[k].port@
                && v@[k].latest_read is None by {
                if k < i {
                    assert(v@[k] == before[k]);
                }
            }
            i = i + 1;
        }
        proof {
            assert forall|k: int| 0 <= k < v@.len() implies self.model().contains_key(
                #[trigger] v@[k].connection_id@,
            ) && self.model()[v@[k].connection_id@].0 == v@[k].port@ by {
                self.lemma_model_at(k);
            }
        }
        v
    }
}

/// A fresh connection id: `uuid::Uuid::new_v4()` in its hyphenated text
/// form, which is always 36 characters long. Its value is random, so nothing
/// more is stated of it.
#[verifier::external_body]
fn new_connection_id() -> (id: String)
    ensures
        id@.len() == 36,
{
    uuid::Uuid::new_v4().to_string()
}

/// Opening a port that no connection holds keeps every port held at most
/// once, and afterwards the port is held, so a second open of it is refused.
pub proof fn law_open_holds_port_once<C>(
    m: Map<Seq<char>, (Seq<char>, C)>,
    id: Seq<char>,
    port: Seq<char>,
    conn: C,
)
    requires
        ports_distinct(m),
        !map_has_port(m, port),
    ensures
        ports_distinct(m.insert(id, (port, conn))),
        map_has_port(m.insert(id, (port, conn)), port),
{
    let n = m.insert(id, (port, conn));
    assert(n.contains_key(id) && n[id].0 == port);
    assert forall|a: Seq<char>, b: Seq<char>|
        #[trigger] n.contains_key(a) && #[trigger] n.contains_key(b) && a != b implies n[a].0
            != n[b].0 by {
        if a == id {
            assert(m.contains_key(b));
        } else if b == id {
            assert(m.contains_key(a));
        } else {
            assert(m.contains_key(a) && m.contains_key(b));
        }
    }
}

/// Closing a connection forgets its id and frees its port for a new open;
/// the other connections stay as they were.
pub proof fn law_close_frees_port<C>(m: Map<Seq<char>, (Seq<char>, C)>, id: Seq<char>)
    requires
        ports_distinct(m),
        m.contains_key(id),
    ensures
        !m.remove(id).contains_key(id),
        !map_has_port(m.remove(id), m[id].0),
        ports_distinct(m.remove(id)),
        forall|k: Seq<char>| k != id ==> m.remove(id).contains_key(k) == m.contains_key(k),
{
    let n = m.remove(id);
    if map_has_port(n, m[id].0) {
        let k = choose|k: Seq<char>| #[trigger] n.contains_key(k) && n[k].0 == m[id].0;
        assert(m.contains_key(k) && k != id);
    }
}

/// Closing a connection that was just opened under a new id leaves the
/// registry as it was before the open.
pub proof fn law_close_undoes_open<C>(
    m: Map<Seq<char>, (Seq<char>, C)>,
    id: Seq<char>,
    port: Seq<char>,
    conn: C,
)
    requires
        !m.contains_key(id),
    ensures
        m.insert(id, (port, conn)).remove(id) == m,
{
    assert(m.insert(id, (port, conn)).remove(id) =~= m);
}

/// A connection stored under an id is the one a lookup of that id finds.
pub proof fn law_get_after_open<C>(
    m: Map<Seq<char>, (Seq<char>, C)>,
    id: Seq<char>,
    port: Seq<char>,
    conn: C,
)
    ensures
        m.insert(id, (port, conn)).contains_key(id),
        m.insert(id, (port, conn))[id] == (port, conn),
{
}

fn find_in<C>(entries: &Vec<OpenEntry<C>>, id: &str) -> (r: Option<usize>)
    ensures
        match r {
            Some(i) => i < entries@.len() && entries@[i as int].id@ == id@,
            None => forall|k: int| 0 <= k < entries@.len() ==> entries@[k].id@ != id@,
        },
{
    let mut i: usize = 0;
    while i < entries.len()
        invariant
            i <= entries@.len(),
            forall|k: int| 0 <= k < i ==> entries@[k].id@ != id@,
        decreases entries@.len() - i,
    {
        if string_eq_str(&entries[i].id, id) {
            return Some(i);
        }
        i = i + 1;
    }
    None
}

/// Whether a `String` holds the same characters as a string slice.
fn string_eq_str(a: &String, b: &str) -> (r: bool)
    ensures
        r == (a@ == b@),
{
    crate::text::chars_eq_str(&crate::text::chars_of(a.as_str()), b)
}

} // verus!
