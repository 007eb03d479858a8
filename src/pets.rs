//! Pet descriptors: the stored form, which keeps category and gender as
//! text, and the typed form exchanged with clients.
use vstd::prelude::*;

verus! {

/// Kind of animal a booking is for.
#[derive(Clone, Copy, Debug, PartialEq, Eq, Structural)]
pub enum PetType {
    Birds,
    Hamsters,
    Cats,
    Dogs,
    Rabbits,
    GuineaPigs,
    Chinchillas,
    Mice,
    Fishes,
}

#[derive(Clone, Copy, Debug, PartialEq, Eq, Structural)]
pub enum PetGender {
    Male,
    Female,
    Unspecified,
}

/// A pet as the appointment store keeps it.
#[derive(Debug)]
pub struct Pet {
    pub pet_type: String,
    pub name: String,
    pub gender: String,
    pub age: usize,
    pub medical_info: String,
}

/// A pet as clients send and receive it.
#[derive(Debug)]
pub struct PetInputOutput {
    pub pet_type: PetType,
    pub name: String,
    pub gender: PetGender,
    pub age: usize,
    pub medical_info: String,
}

/// Why a stored pet cannot be read back.
#[derive(Clone, Copy, Debug, PartialEq, Eq, Structural)]
pub enum PetDecodeError {
    UnknownGender,
    UnknownPetType,
}

/// The stored name of a pet type.
pub open spec fn pet_type_wire(t: PetType) -> Seq<char> {
    match t {
        PetType::Birds => "Birds"@,
        PetType::Hamsters => "Hamsters"@,
        PetType::Cats => "Cats"@,
        PetType::Dogs => "Dogs"@,
        PetType::Rabbits => "Rabbits"@,
        PetType::GuineaPigs => "GuineaPigs"@,
        PetType::Chinchillas => "Chinchillas"@,
        PetType::Mice => "Mice"@,
        PetType::Fishes => "Fishes"@,
    }
}

/// The pet type stored as `w`, if any.
pub open spec fn pet_type_of_wire(w: Seq<char>) -> Option<PetType> {
    if w == "Birds"@ {
        Some(PetType::Birds)
    } else if w == "Hamsters"@ {
        Some(PetType::Hamsters)
    } else if w == "Cats"@ {
        Some(PetType::Cats)
    } else if w == "Dogs"@ {
        Some(PetType::Dogs)
    } else if w == "Rabbits"@ {
        Some(PetType::Rabbits)
    } else if w == "GuineaPigs"@ {
        Some(PetType::GuineaPigs)
    } else if w == "Chinchillas"@ {
        Some(PetType::Chinchillas)
    } else if w == "Mice"@ {
        Some(PetType::Mice)
    } else if w == "Fishes"@ {
        Some(PetType::Fishes)
    } else {
        None
    }
}

/// The stored name of a gender.
pub open spec fn gender_wire(g: PetGender) -> Seq<char> {
    match g {
        PetGender::Male => "male"@,
        PetGender::Female => "female"@,
        PetGender::Unspecified => "unspecified"@,
    }
}

/// The gender stored as `w`, if any.
pub open spec fn gender_of_wire(w: Seq<char>) -> Option<PetGender> {
    if w == "male"@ {
        Some(PetGender::Male)
    } else if w == "female"@ {
        Some(PetGender::Female)
    } else if w == "unspecified"@ {
        Some(PetGender::Unspecified)
    } else {
        None
    }
}

/// What reading back the stored pet `p` gives: the gender is checked first,
/// then the pet type.
pub open spec fn decode_outcome(p: Pet) -> Result<(PetType, PetGender), PetDecodeError> {
    match gender_of_wire(p.gender@) {
        None => Err(PetDecodeError::UnknownGender),
        Some(g) => match pet_type_of_wire(p.pet_type@) {
            None => Err(PetDecodeError::UnknownPetType),
            Some(t) => Ok((t, g)),
        },
    }
}

impl PetType {
    pub fn as_wire(&self) -> (r: String)
        ensures
            r@ == pet_type_wire(*self),
    {
        match self {
            PetType::Birds => "Birds".to_owned(),
            PetType::Hamsters => "Hamsters".to_owned(),
            PetType::Cats => "Cats".to_owned(),
            PetType::Dogs => "Dogs".to_owned(),
            PetType::Rabbits => "Rabbits".to_owned(),
            PetType::GuineaPigs => "GuineaPigs".to_owned(),
            PetType::Chinchillas => "Chinchillas".to_owned(),
            PetType::Mice => "Mice".to_owned(),
            PetType::Fishes => "Fishes".to_owned(),
        }
    }

    pub fn from_wire(w: &str) -> (r: Option<PetType>)
        ensures
            r == pet_type_of_wire(w@),
    {
        let owned = w.to_owned();
        if owned == "Birds".to_owned() {
            Some(PetType::Birds)
        } else if owned == "Hamsters".to_owned() {
            Some(PetType::Hamsters)
        } else if owned == "Cats".to_owned() {
            Some(PetType::Cats)
        } else if owned == "Dogs".to_owned() {
            Some(PetType::Dogs)
        } else if owned == "Rabbits".to_owned() {
            Some(PetType::Rabbits)
        } else if owned == "GuineaPigs".to_owned() {
            Some(PetType::GuineaPigs)
        } else if owned == "Chinchillas".to_owned() {
            Some(PetType::Chinchillas)
        } else if owned == "Mice".to_owned() {
            Some(PetType::Mice)
        } else if owned == "Fishes".to_owned() {
            Some(PetType::Fishes)
        } else {
            None
        }
    }
}

impl PetGender {
    pub fn as_wire(&self) -> (r: String)
        ensures
            r@ == gender_wire(*self),
    {
        match self {
            PetGender::Male => "male".to_owned(),
            PetGender::Female => "female".to_owned(),
            PetGender::Unspecified => "unspecified".to_owned(),
        }
    }

    pub fn from_wire(w: &str) -> (r: Option<PetGender>)
        ensures
            r == gender_of_wire(w@),
    {
        let owned = w.to_owned();
        if owned == "male".to_owned() {
            Some(PetGender::Male)
        } else if owned == "female".to_owned() {
            Some(PetGender::Female)
        } else if owned == "unspecified".to_owned() {
            Some(PetGender::Unspecified)
        } else {
            None
        }
    }
}

impl Pet {
    /// The stored form of a pet received from a client.
    pub fn from_input(p: PetInputOutput) -> (r: Pet)
        ensures
            r.pet_type@ == pet_type_wire(p.pet_type),
            r.gender@ == gender_wire(p.gender),
            r.name@ == p.name@,
            r.age == p.age,
            r.medical_info@ == p.medical_info@,
    {
        Pet {
            pet_type: p.pet_type.as_wire(),
            name: p.name,
            gender: p.gender.as_wire(),
            age: p.age,
            medical_info: p.medical_info,
        }
    }
}

impl PetInputOutput {
    /// Reads a stored pet back into its typed form; an unknown gender or pet
    /// type name is refused.
    pub fn try_from_pet(p: Pet) -> (r: Result<PetInputOutput, PetDecodeError>)
        ensures
            match decode_outcome(p) {
                Err(e) => r == Err::<PetInputOutput, PetDecodeError>(e),
                Ok((t, g)) => r matches Ok(q) && q.pet_type == t && q.gender == g && q.name@
                    == p.name@ && q.age == p.age && q.medical_info@ == p.medical_info@,
            },
    {
        let gender = match PetGender::from_wire(p.gender.as_str()) {
            Some(g) => g,
            None => return Err(PetDecodeError::UnknownGender),
        };
        let pet_type = match PetType::from_wire(p.pet_type.as_str()) {
            Some(t) => t,
            None => return Err(PetDecodeError::UnknownPetType),
        };
        Ok(PetInputOutput {
            pet_type,
            name: p.name,
            gender,
            age: p.age,
            medical_info: p.medical_info,
        })
    }
}

/// Storing a pet and reading it back gives the same pet type and gender:
/// every type and gender has a stored name that reads back as itself.
pub proof fn lemma_pet_wire_round_trip(t: PetType, g: PetGender)
    ensures
        pet_type_of_wire(pet_type_wire(t)) == Some(t),
        gender_of_wire(gender_wire(g)) == Some(g),
{
    reveal_strlit("Birds");
    reveal_strlit("Hamsters");
    reveal_strlit("Cats");
    reveal_strlit("Dogs");
    reveal_strlit("Rabbits");
    reveal_strlit("GuineaPigs");
    reveal_strlit("Chinchillas");
    reveal_strlit("Mice");
    reveal_strlit("Fishes");
    reveal_strlit("male");
    reveal_strlit("female");
    reveal_strlit("unspecified");
    assert("Birds"@.len() != "Hamsters"@.len());
    assert("Birds"@.len() != "Cats"@.len());
    assert("Birds"@.len() != "Dogs"@.len());
    assert("Birds"@.len() != "Rabbits"@.len());
    assert("Birds"@.len() != "GuineaPigs"@.len());
    assert("Birds"@.len() != "Chinchillas"@.len());
    assert("Birds"@.len() != "Mice"@.len());
    assert("Birds"@.len() != "Fishes"@.len());
    assert("Hamsters"@.len() != "Cats"@.len());
    assert("Hamsters"@.len() != "Dogs"@.len());
    assert("Hamsters"@.len() != "Rabbits"@.len());
    assert("Hamsters"@.len() != "GuineaPigs"@.len());
    assert("Hamsters"@.len() != "Chinchillas"@.len());
    assert("Hamsters"@.len() != "Mice"@.len());
    assert("Hamsters"@.len() != "Fishes"@.len());
    assert("Cats"@[0] != "Dogs"@[0]);
    assert("Cats"@.len() != "Rabbits"@.len());
    assert("Cats"@.len() != "GuineaPigs"@.len());
    assert("Cats"@.len() != "Chinchillas"@.len());
    assert("Cats"@[0] != "Mice"@[0]);
    assert("Cats"@.len() != "Fishes"@.len());
    assert("Dogs"@.len() != "Rabbits"@.len());
    assert("Dogs"@.len() != "GuineaPigs"@.len());
    assert("Dogs"@.len() != "Chinchillas"@.len());
    assert("Dogs"@[0] != "Mice"@[0]);
    assert("Dogs"@.len() != "Fishes"@.len());
    assert("Rabbits"@.len() != "GuineaPigs"@.len());
    assert("Rabbits"@.len() != "Chinchillas"@.len());
    assert("Rabbits"@.len() != "Mice"@.len());
    assert("Rabbits"@.len() != "Fishes"@.len());
    assert("GuineaPigs"@.len() != "Chinchillas"@.len());
    assert("GuineaPigs"@.len() != "Mice"@.len());
    assert("GuineaPigs"@.len() != "Fishes"@.len());
    assert("Chinchillas"@.len() != "Mice"@.len());
    assert("Chinchillas"@.len() != "Fishes"@.len());
    assert("Mice"@.len() != "Fishes"@.len());
    assert("male"@.len() != "female"@.len());
    assert("male"@.len() != "unspecified"@.len());
    assert("female"@.len() != "unspecified"@.len());
}

} // verus!
