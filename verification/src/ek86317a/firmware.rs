//! BIN firmware file parsing for EK86317A.
//!
//! BIN files are raw data streams, sequentially mapped from address 0x00.

use vstd::prelude::*;

use crate::ek86317a::registers::{pmic_reg_address_seq, pmic_reg_addresses, REG_CONTROL};
use crate::pmu::firmware::{collect_image_registers, image_registers};

verus! {

/// How many addresses of `addrs` other than `control` lie below `size`.
pub open spec fn covered_count(addrs: Seq<u8>, control: u8, size: int) -> nat
    decreases addrs.len(),
{
    if addrs.len() == 0 {
        0
    } else {
        covered_count(addrs.drop_last(), control, size) + if (addrs.last() as int) < size
            && addrs.last() != control {
            1nat
        } else {
            0nat
        }
    }
}

/// The EK86317A register pairs that image `data` holds.
pub open spec fn ek_image_registers(data: Seq<u8>) -> Seq<(u8, u8)> {
    image_registers(pmic_reg_address_seq(), REG_CONTROL, data)
}

/// Parsed firmware image
pub struct FirmwareImage {
    /// Raw firmware data bytes
    pub data: Vec<u8>,
    /// Total size in bytes
    pub size: usize,
    /// Number of registers covered
    pub register_count: usize,
}

impl FirmwareImage {
    /// Parse firmware from raw bytes; an empty image is an error. The register
    /// count is the number of PMIC register addresses (the control register
    /// excepted) that lie inside the image.
    pub fn from_bytes(data: Vec<u8>) -> (r: Result<Self, String>)
        ensures
            data@.len() == 0 <==> r is Err,
            r matches Err(e) ==> e@ == "Empty firmware file"@,
            r matches Ok(fw) ==> {
                &&& fw.data@ == data@
                &&& fw.size == data@.len()
                &&& fw.register_count == covered_count(
                    pmic_reg_address_seq(),
                    REG_CONTROL,
                    data@.len() as int,
                )
            },
    {
        if data.len() == 0 {
            return Err("Empty firmware file".to_owned());
        }
        let size = data.len();
        let addrs = pmic_reg_addresses();
        let mut count: usize = 0;
        let mut i: usize = 0;
        while i < addrs.len()
            invariant
                i <= addrs@.len(),
                addrs@ == pmic_reg_address_seq(),
                size == data@.len(),
                count == covered_count(addrs@.take(i as int), REG_CONTROL, size as int),
                count <= i,
            decreases addrs@.len() - i,
        {
            let a = addrs[i];
            assert(addrs@.take(i + 1).drop_last() =~= addrs@.take(i as int));
            if (a as usize) < size && a != REG_CONTROL {
                count = count + 1;
            }
            i = i + 1;
        }
        assert(addrs@.take(i as int) =~= addrs@);
        Ok(FirmwareImage { data, size, register_count: count })
    }

    /// The value at register `addr`, or `None` beyond the image.
    pub fn get_register_value(&self, addr: u8) -> (r: Option<u8>)
        ensures
            r == (if (addr as int) < self.data@.len() {
                Some(self.data@[addr as int])
            } else {
                None::<u8>
            }),
    {
        let idx = addr as usize;
        if idx < self.data.len() {
            Some(self.data[idx])
        } else {
            None
        }
    }

    /// All registers as (address, value) pairs: the PMIC register addresses
    /// (the control register excepted) inside the image, in address order.
    pub fn get_all_registers(&self) -> (r: Vec<(u8, u8)>)
        ensures
            r@ == ek_image_registers(self.data@),
    {
        let addrs = pmic_reg_addresses();
        collect_image_registers(&addrs, REG_CONTROL, &self.data)
    }

    /// Raw data slice.
    pub fn as_bytes(&self) -> (r: &[u8])
        ensures
            r@ == self.data@,
    {
        self.data.as_slice()
    }
}

/// The register count of an image is the number of registers it lists: for
/// any image bytes, counting the covered addresses gives the length of the
/// register list.
pub proof fn lemma_register_count_is_register_list_length(data: Seq<u8>)
    ensures
        covered_count(pmic_reg_address_seq(), REG_CONTROL, data.len() as int)
            == ek_image_registers(data).len(),
{
    lemma_count_matches(pmic_reg_address_seq(), REG_CONTROL, data);
}

proof fn lemma_count_matches(addrs: Seq<u8>, control: u8, data: Seq<u8>)
    ensures
        covered_count(addrs, control, data.len() as int) == image_registers(addrs, control, data).len(),
    decreases addrs.len(),
{
    if addrs.len() > 0 {
        lemma_count_matches(addrs.drop_last(), control, data);
    }
}

} // verus!
