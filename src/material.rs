use crate::boundary::SimError;
use vstd::prelude::*;
use vstd::string::StringSliceAdditionalSpecFns;

verus! {

/// Constitutive parameters of an elastic material, in SI units: shear
/// modulus and bulk modulus in pascal, density in kilograms per cubic metre.
#[derive(Debug, Clone, Copy, PartialEq, Eq, Structural)]
pub struct Material {
    pub shear_modulus: u64,
    pub bulk_modulus: u64,
    pub density: u64,
}

/// The material table's one entry, "rubber": a soft, nearly incompressible solid.
pub open spec fn rubber() -> Material {
    Material { shear_modulus: 1000000, bulk_modulus: 50000000, density: 1100 }
}

/// The bytes of "rubber".
pub open spec fn rubber_name() -> Seq<u8> {
    seq![114u8, 117, 98, 98, 101, 114]
}

impl Material {
    /// The material called `name` in the material table.
    pub fn from_name(name: &str) -> (r: Result<Material, SimError>)
        ensures
            name.spec_bytes() == rubber_name() ==> r == Ok::<Material, SimError>(rubber()),
            name.spec_bytes() != rubber_name() ==> r == Err::<Material, SimError>(SimError::UnknownMaterial),
    {
        let b = name.as_bytes();
        let lit: [u8; 6] = [114, 117, 98, 98, 101, 114];
        assert(lit@ =~= rubber_name());
        if b.len() != 6 {
            return Err(SimError::UnknownMaterial);
        }
        let mut i: usize = 0;
        while i < 6
            invariant
                b@ == name.spec_bytes(),
                b@.len() == 6,
                lit@ == rubber_name(),
                i <= 6,
                forall|k: int| 0 <= k < i ==> b@[k] == lit@[k],
            decreases 6 - i,
        {
            if b[i] != lit[i] {
                assert(b@[i as int] != rubber_name()[i as int]);
                return Err(SimError::UnknownMaterial);
            }
            i += 1;
        }
        assert(b@ =~= rubber_name());
        Ok(Material { shear_modulus: 1000000, bulk_modulus: 50000000, density: 1100 })
    }
}

} // verus!
