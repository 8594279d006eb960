use vstd::prelude::*;

verus! {

/// How many entities are known: the fifty states and the District of
/// Columbia.
pub const ENTITY_COUNT: usize = 51;

/// The display name of the `i`-th known entity.
pub open spec fn known_name(i: int) -> Seq<char> {
    if i == 0 {
        "Alabama"@
    } else if i == 1 {
        "Alaska"@
    } else if i == 2 {
        "Arizona"@
    } else if i == 3 {
        "Arkansas"@
    } else if i == 4 {
        "California"@
    } else if i == 5 {
        "Colorado"@
    } else if i == 6 {
        "Connecticut"@
    } else if i == 7 {
        "Delaware"@
    } else if i == 8 {
        "District of Columbia"@
    } else if i == 9 {
        "Florida"@
    } else if i == 10 {
        "Georgia"@
    } else if i == 11 {
        "Hawaii"@
    } else if i == 12 {
        "Idaho"@
    } else if i == 13 {
        "Illinois"@
    } else if i == 14 {
        "Indiana"@
    } else if i == 15 {
        "Iowa"@
    } else if i == 16 {
        "Kansas"@
    } else if i == 17 {
        "Kentucky"@
    } else if i == 18 {
        "Louisiana"@
    } else if i == 19 {
        "Maine"@
    } else if i == 20 {
        "Maryland"@
    } else if i == 21 {
        "Massachusetts"@
    } else if i == 22 {
        "Michigan"@
    } else if i == 23 {
        "Minnesota"@
    } else if i == 24 {
        "Mississippi"@
    } else if i == 25 {
        "Missouri"@
    } else if i == 26 {
        "Montana"@
    } else if i == 27 {
        "Nebraska"@
    } else if i == 28 {
        "Nevada"@
    } else if i == 29 {
        "New Hampshire"@
    } else if i == 30 {
        "New Jersey"@
    } else if i == 31 {
        "New Mexico"@
    } else if i == 32 {
        "New York"@
    } else if i == 33 {
        "North Carolina"@
    } else if i == 34 {
        "North Dakota"@
    } else if i == 35 {
        "Ohio"@
    } else if i == 36 {
        "Oklahoma"@
    } else if i == 37 {
        "Oregon"@
    } else if i == 38 {
        "Pennsylvania"@
    } else if i == 39 {
        "Rhode Island"@
    } else if i == 40 {
        "South Carolina"@
    } else if i == 41 {
        "South Dakota"@
    } else if i == 42 {
        "Tennessee"@
    } else if i == 43 {
        "Texas"@
    } else if i == 44 {
        "Utah"@
    } else if i == 45 {
        "Vermont"@
    } else if i == 46 {
        "Virginia"@
    } else if i == 47 {
        "Washington"@
    } else if i == 48 {
        "West Virginia"@
    } else if i == 49 {
        "Wisconsin"@
    } else {
        "Wyoming"@
    }
}

/// The two-letter code of the `i`-th known entity.
pub open spec fn known_code(i: int) -> Seq<char> {
    if i == 0 {
        "AL"@
    } else if i == 1 {
        "AK"@
    } else if i == 2 {
        "AZ"@
    } else if i == 3 {
        "AR"@
    } else if i == 4 {
        "CA"@
    } else if i == 5 {
        "CO"@
    } else if i == 6 {
        "CT"@
    } else if i == 7 {
        "DE"@
    } else if i == 8 {
        "DC"@
    } else if i == 9 {
        "FL"@
    } else if i == 10 {
        "GA"@
    } else if i == 11 {
        "HI"@
    } else if i == 12 {
        "ID"@
    } else if i == 13 {
        "IL"@
    } else if i == 14 {
        "IN"@
    } else if i == 15 {
        "IA"@
    } else if i == 16 {
        "KS"@
    } else if i == 17 {
        "KY"@
    } else if i == 18 {
        "LA"@
    } else if i == 19 {
        "ME"@
    } else if i == 20 {
        "MD"@
    } else if i == 21 {
        "MA"@
    } else if i == 22 {
        "MI"@
    } else if i == 23 {
        "MN"@
    } else if i == 24 {
        "MS"@
    } else if i == 25 {
        "MO"@
    } else if i == 26 {
        "MT"@
    } else if i == 27 {
        "NE"@
    } else if i == 28 {
        "NV"@
    } else if i == 29 {
        "NH"@
    } else if i == 30 {
        "NJ"@
    } else if i == 31 {
        "NM"@
    } else if i == 32 {
        "NY"@
    } else if i == 33 {
        "NC"@
    } else if i == 34 {
        "ND"@
    } else if i == 35 {
        "OH"@
    } else if i == 36 {
        "OK"@
    } else if i == 37 {
        "OR"@
    } else if i == 38 {
        "PA"@
    } else if i == 39 {
        "RI"@
    } else if i == 40 {
        "SC"@
    } else if i == 41 {
        "SD"@
    } else if i == 42 {
        "TN"@
    } else if i == 43 {
        "TX"@
    } else if i == 44 {
        "UT"@
    } else if i == 45 {
        "VT"@
    } else if i == 46 {
        "VA"@
    } else if i == 47 {
        "WA"@
    } else if i == 48 {
        "WV"@
    } else if i == 49 {
        "WI"@
    } else {
        "WY"@
    }
}

/// The display name of the `i`-th known entity.
fn name_at(i: usize) -> (r: &'static str)
    requires
        i < ENTITY_COUNT,
    ensures
        r@ == known_name(i as int),
{
    match i {
        0 => "Alabama",
        1 => "Alaska",
        2 => "Arizona",
        3 => "Arkansas",
        4 => "California",
        5 => "Colorado",
        6 => "Connecticut",
        7 => "Delaware",
        8 => "District of Columbia",
        9 => "Florida",
        10 => "Georgia",
        11 => "Hawaii",
        12 => "Idaho",
        13 => "Illinois",
        14 => "Indiana",
        15 => "Iowa",
        16 => "Kansas",
        17 => "Kentucky",
        18 => "Louisiana",
        19 => "Maine",
        20 => "Maryland",
        21 => "Massachusetts",
        22 => "Michigan",
        23 => "Minnesota",
        24 => "Mississippi",
        25 => "Missouri",
        26 => "Montana",
        27 => "Nebraska",
        28 => "Nevada",
        29 => "New Hampshire",
        30 => "New Jersey",
        31 => "New Mexico",
        32 => "New York",
        33 => "North Carolina",
        34 => "North Dakota",
        35 => "Ohio",
        36 => "Oklahoma",
        37 => "Oregon",
        38 => "Pennsylvania",
        39 => "Rhode Island",
        40 => "South Carolina",
        41 => "South Dakota",
        42 => "Tennessee",
        43 => "Texas",
        44 => "Utah",
        45 => "Vermont",
        46 => "Virginia",
        47 => "Washington",
        48 => "West Virginia",
        49 => "Wisconsin",
        50 => "Wyoming",
        _ => "Wyoming",
    }
}

/// The two-letter code of the `i`-th known entity.
fn code_at(i: usize) -> (r: &'static str)
    requires
        i < ENTITY_COUNT,
    ensures
        r@ == known_code(i as int),
{
    match i {
        0 => "AL",
        1 => "AK",
        2 => "AZ",
        3 => "AR",
        4 => "CA",
        5 => "CO",
        6 => "CT",
        7 => "DE",
        8 => "DC",
        9 => "FL",
        10 => "GA",
        11 => "HI",
        12 => "ID",
        13 => "IL",
        14 => "IN",
        15 => "IA",
        16 => "KS",
        17 => "KY",
        18 => "LA",
        19 => "ME",
        20 => "MD",
        21 => "MA",
        22 => "MI",
        23 => "MN",
        24 => "MS",
        25 => "MO",
        26 => "MT",
        27 => "NE",
        28 => "NV",
        29 => "NH",
        30 => "NJ",
        31 => "NM",
        32 => "NY",
        33 => "NC",
        34 => "ND",
        35 => "OH",
        36 => "OK",
        37 => "OR",
        38 => "PA",
        39 => "RI",
        40 => "SC",
        41 => "SD",
        42 => "TN",
        43 => "TX",
        44 => "UT",
        45 => "VT",
        46 => "VA",
        47 => "WA",
        48 => "WV",
        49 => "WI",
        50 => "WY",
        _ => "WY",
    }
}

/// One of the known entities (a state or the District of Columbia). Only
/// the lookups below make one, so each is valid.
#[derive(Clone, Copy, Debug, PartialEq, Eq, Structural)]
pub struct Entity {
    index: usize,
}

impl Entity {
    /// The entity's position in the table of known entities.
    pub closed spec fn id(self) -> int {
        self.index as int
    }

    #[verifier::type_invariant]
    spec fn valid(self) -> bool {
        self.index < ENTITY_COUNT
    }

    /// The entity's two-letter code, such as "CA".
    pub fn code(&self) -> (r: &'static str)
        ensures
            r@ == known_code(self.id()),
    {
        proof {
            use_type_invariant(self);
        }
        code_at(self.index)
    }

    /// The entity's display name, such as "California".
    pub fn name(&self) -> (r: &'static str)
        ensures
            r@ == known_name(self.id()),
    {
        proof {
            use_type_invariant(self);
        }
        name_at(self.index)
    }
}

/// Looks a display name up among the known entities: the first entity with
/// exactly that name, or `None` when the name is not recognized.
pub fn entity_by_name(name: &str) -> (r: Option<Entity>)
    ensures
        match r {
            Some(e) => 0 <= e.id() < ENTITY_COUNT && known_name(e.id()) == name@ && forall|j: int|
                0 <= j < e.id() ==> known_name(j) != name@,
            None => forall|j: int| 0 <= j < ENTITY_COUNT ==> known_name(j) != name@,
        },
{
    let target = name.to_owned();
    let mut i: usize = 0;
    while i < ENTITY_COUNT
        invariant
            target@ == name@,
            i <= ENTITY_COUNT,
            forall|j: int| 0 <= j < i ==> known_name(j) != name@,
        decreases ENTITY_COUNT - i,
    {
        let candidate = name_at(i).to_owned();
        if candidate == target {
            return Some(Entity { index: i });
        }
        i = i + 1;
    }
    None
}

/// Looks a two-letter code up among the known entities: the first entity
/// with exactly that code, or `None` when the code is not recognized.
pub fn entity_by_code(code: &str) -> (r: Option<Entity>)
    ensures
        match r {
            Some(e) => 0 <= e.id() < ENTITY_COUNT && known_code(e.id()) == code@ && forall|j: int|
                0 <= j < e.id() ==> known_code(j) != code@,
            None => forall|j: int| 0 <= j < ENTITY_COUNT ==> known_code(j) != code@,
        },
{
    let target = code.to_owned();
    let mut i: usize = 0;
    while i < ENTITY_COUNT
        invariant
            target@ == code@,
            i <= ENTITY_COUNT,
            forall|j: int| 0 <= j < i ==> known_code(j) != code@,
        decreases ENTITY_COUNT - i,
    {
        let candidate = code_at(i).to_owned();
        if candidate == target {
            return Some(Entity { index: i });
        }
        i = i + 1;
    }
    None
}

/// Every known entity, in table order.
pub fn all_entities() -> (r: Vec<Entity>)
    ensures
        r@.len() == ENTITY_COUNT,
        forall|i: int| 0 <= i < ENTITY_COUNT ==> (#[trigger] r@[i]).id() == i,
{
    let mut out: Vec<Entity> = Vec::new();
    let mut i: usize = 0;
    while i < ENTITY_COUNT
        invariant
            i <= ENTITY_COUNT,
            out@.len() == i,
            forall|j: int| 0 <= j < i ==> (#[trigger] out@[j]).id() == j,
        decreases ENTITY_COUNT - i,
    {
        out.push(Entity { index: i });
        i = i + 1;
    }
    out
}

} // verus!
