//! Telling the keyboard's two modes apart by its USB identity, and picking
//! the one keyboard on the bus.

use vstd::prelude::*;
use crate::upload::PACKET_SIZE;

verus! {

/// Vendor and product id of the keyboard in normal mode, as `0x<vendor><product>`.
pub const NORMAL_MODE_ID: u32 = 0x0E6A030C;

/// In program mode the keyboard reports the id just below the normal one.
pub const PROGRAM_MODE_ID: u32 = NORMAL_MODE_ID - 1;

/// Opcode that toggles the keyboard between its two modes.
pub const OP_TOGGLE_MODE: u8 = 0x44;

/// Which mode a query asks for.
#[derive(Clone, Copy, Debug, PartialEq, Eq, Structural)]
pub enum Mode {
    Program,
    Normal,
    Either,
}

/// What a device is, judged by its identity.
#[derive(Clone, Copy, Debug, PartialEq, Eq, Structural)]
pub enum DeviceMode {
    Normal,
    Program,
    Unrelated,
}

/// Why a device step could not be carried out.
#[derive(Clone, Copy, Debug, PartialEq, Eq, Structural)]
pub enum DeviceError {
    NoDevice,
    MultipleDevices,
    AlreadyInProgramMode,
    StillInNormalMode,
    AlreadyInNormalMode,
    UnrelatedDevice,
    Transfer,
}

/// The combined identity: vendor id in the high half, product id in the low.
pub open spec fn device_id_spec(vendor: u16, product: u16) -> u32 {
    (vendor * 65536 + product) as u32
}

pub open spec fn classify_spec(id: u32) -> DeviceMode {
    if id == NORMAL_MODE_ID {
        DeviceMode::Normal
    } else if id == PROGRAM_MODE_ID {
        DeviceMode::Program
    } else {
        DeviceMode::Unrelated
    }
}

pub open spec fn is_tek_spec(id: u32, mode: Mode) -> bool {
    (id == NORMAL_MODE_ID && mode != Mode::Program) || (id == PROGRAM_MODE_ID && mode != Mode::Normal)
}

/// How many of the first `n` ids belong to the keyboard, in either mode.
pub open spec fn tek_count(ids: Seq<u32>, n: nat) -> nat
    decreases n,
{
    if n == 0 {
        0
    } else {
        tek_count(ids, (n - 1) as nat) + if is_tek_spec(ids[n - 1], Mode::Either) { 1nat } else { 0nat }
    }
}

/// The identity of a device from its descriptor's vendor and product ids.
pub fn device_id(vendor: u16, product: u16) -> (id: u32)
    ensures
        id == device_id_spec(vendor, product),
        id as int == vendor * 65536 + product,
{
    vendor as u32 * 65536 + product as u32
}

/// The mode a device with this identity is in, if it is the keyboard at all.
pub fn classify(id: u32) -> (m: DeviceMode)
    ensures
        m == classify_spec(id),
{
    if id == NORMAL_MODE_ID {
        DeviceMode::Normal
    } else if id == PROGRAM_MODE_ID {
        DeviceMode::Program
    } else {
        DeviceMode::Unrelated
    }
}

/// Whether a device with this identity is the keyboard in the mode asked for.
pub fn is_tek(id: u32, mode: Mode) -> (r: bool)
    ensures
        r == is_tek_spec(id, mode),
{
    match classify(id) {
        DeviceMode::Normal => mode != Mode::Program,
        DeviceMode::Program => mode != Mode::Normal,
        DeviceMode::Unrelated => false,
    }
}

/// Picks the one keyboard among the identities of all devices on the bus;
/// none or more than one is an error.
pub fn find_keyboard(ids: &Vec<u32>) -> (r: Result<usize, DeviceError>)
    ensures
        tek_count(ids@, ids@.len()) == 0 <==> r == Err::<usize, DeviceError>(DeviceError::NoDevice),
        tek_count(ids@, ids@.len()) >= 2 <==> r == Err::<usize, DeviceError>(DeviceError::MultipleDevices),
        tek_count(ids@, ids@.len()) == 1 <==> r is Ok,
        r matches Ok(i) ==> i < ids@.len() && is_tek_spec(ids@[i as int], Mode::Either),
{
    let mut found: Option<usize> = None;
    let mut i: usize = 0;
    while i < ids.len()
        invariant
            i <= ids@.len(),
            found is None <==> tek_count(ids@, i as nat) == 0,
            found matches Some(k) ==> k < i && is_tek_spec(ids@[k as int], Mode::Either)
                && tek_count(ids@, i as nat) == 1,
        decreases ids@.len() - i,
    {
        if is_tek(ids[i], Mode::Either) {
            if found.is_some() {
                proof {
                    lemma_tek_count_grows(ids@, (i + 1) as nat, ids@.len());
                }
                return Err(DeviceError::MultipleDevices);
            }
            found = Some(i);
        }
        i += 1;
    }
    match found {
        Some(k) => Ok(k),
        None => Err(DeviceError::NoDevice),
    }
}

/// Counting over a longer prefix never finds fewer keyboards.
pub proof fn lemma_tek_count_grows(ids: Seq<u32>, n: nat, m: nat)
    requires
        n <= m <= ids.len(),
    ensures
        tek_count(ids, n) <= tek_count(ids, m),
    decreases m - n,
{
    if n < m {
        lemma_tek_count_grows(ids, n, (m - 1) as nat);
    }
}

/// Two distinct keyboards among the ids make the count at least two.
pub proof fn lemma_two_keyboards(ids: Seq<u32>, i: int, k: int)
    requires
        0 <= i < k < ids.len(),
        is_tek_spec(ids[i], Mode::Either),
        is_tek_spec(ids[k], Mode::Either),
    ensures
        tek_count(ids, ids.len()) >= 2,
{
    lemma_tek_count_grows(ids, 0, i as nat);
    lemma_tek_count_grows(ids, (i + 1) as nat, k as nat);
    lemma_tek_count_grows(ids, (k + 1) as nat, ids.len());
}

/// The packet that toggles the keyboard's mode.
pub fn mode_switch_packet() -> (p: Vec<u8>)
    ensures
        p@ == Seq::new(PACKET_SIZE as nat, |i: int| if i == 0 { OP_TOGGLE_MODE } else { 0u8 }),
{
    let mut p: Vec<u8> = Vec::new();
    p.push(OP_TOGGLE_MODE);
    let mut k: usize = 1;
    while k < PACKET_SIZE
        invariant
            1 <= k <= PACKET_SIZE,
            p@ == Seq::new(k as nat, |i: int| if i == 0 { OP_TOGGLE_MODE } else { 0u8 }),
        decreases PACKET_SIZE - k,
    {
        p.push(0);
        k += 1;
        assert(p@ =~= Seq::new(k as nat, |i: int| if i == 0 { OP_TOGGLE_MODE } else { 0u8 }));
    }
    p
}

/// The normal-mode id is classified as normal, the id just below it as
/// program, every other id as unrelated; and a query for either mode
/// accepts exactly the ids that are not unrelated.
pub proof fn lemma_classification(id: u32)
    ensures
        classify_spec(NORMAL_MODE_ID) == DeviceMode::Normal,
        classify_spec((NORMAL_MODE_ID - 1) as u32) == DeviceMode::Program,
        id != NORMAL_MODE_ID && id != NORMAL_MODE_ID - 1 ==> classify_spec(id) == DeviceMode::Unrelated,
        is_tek_spec(id, Mode::Either) <==> classify_spec(id) != DeviceMode::Unrelated,
        is_tek_spec(id, Mode::Normal) <==> classify_spec(id) == DeviceMode::Normal,
        is_tek_spec(id, Mode::Program) <==> classify_spec(id) == DeviceMode::Program,
{
}

} // verus!
