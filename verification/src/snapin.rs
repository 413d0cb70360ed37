//! Assembly of a snap-in component's metadata record.
//!
//! A record is resolved from the component's configuration entry: the entry's
//! named string values fill the direct fields, indirect string references are
//! parsed here and handed back to the caller for resolution against the named
//! resource library, and an `About` value naming a well-formed capability
//! object identifier asks the caller for one activation. Every outcome the
//! caller feeds back is applied under a contract: a failed lookup leaves its
//! field absent and the rest of the record untouched.
//!
//! Duplicated native visual resources (an icon, a bitmap triad) are held in
//! owning values that cannot be copied and surrender their handles exactly
//! once.

use vstd::prelude::*;
use vstd::seq_lib::*;

use crate::nsi::IndirectString;
use crate::nsi::spec_parse;

verus! {

/// Data held by one named value of a configuration entry. Only string data
/// carries metadata; every other kind is passed over.
#[derive(Debug)]
pub enum ValueData {
    Str(String),
    Other,
}

/// One named value read from a component's configuration entry.
#[derive(Debug)]
pub struct NamedValue {
    pub name: String,
    pub data: ValueData,
}

/// Everything read from one component's configuration entry: the names of its
/// subkeys, `None` where enumerating one subkey failed, and its named values.
#[derive(Debug)]
pub struct ComponentData {
    pub subkeys: Vec<Option<String>>,
    pub values: Vec<NamedValue>,
}

/// The one hard failure of record resolution: the component has no
/// configuration entry at all.
#[derive(Clone, Copy, Debug, PartialEq, Eq, Structural)]
pub enum StoreError {
    NotRegistered,
}

/// Why resolving an indirect string reference failed. Either way the field it
/// would have filled is left absent; the error never aborts a record.
#[derive(Clone, Copy, Debug, PartialEq, Eq, Structural)]
pub enum ResolveError {
    /// The referenced library could not be mapped into the process.
    LibraryLoadFailed,
    /// The resource index yielded a string of zero length.
    StringNotFound,
}

/// Why activating a component's capability object failed. The whole `about`
/// sub-record is then left absent; the error never aborts a record.
#[derive(Clone, Copy, Debug, PartialEq, Eq, Structural)]
pub enum ActivationError {
    InstantiationFailed,
}

/// Which indirect-string field of the record a resolution outcome belongs to.
#[derive(Clone, Copy, Debug, PartialEq, Eq, Structural)]
pub enum IndirectField {
    Name,
    Provider,
    Version,
}

/// An outside lookup the record still needs: resolving an indirect string
/// reference against its library, or activating the capability object with
/// the given 128-bit identifier.
#[derive(Debug)]
pub enum PendingLookup {
    Resolve(IndirectField, IndirectString),
    Activate(u128),
}

/// Owner of one duplicated native icon handle. The handle is always valid
/// (never the null sentinel); the value cannot be copied, so the handle has a
/// single owner until `release` surrenders it.
#[derive(Debug)]
pub struct IconHandle {
    raw: usize,
}

impl IconHandle {
    /// The wrapped raw handle value.
    pub closed spec fn raw_spec(&self) -> usize {
        self.raw
    }

    #[verifier::type_invariant]
    spec fn wf(&self) -> bool {
        self.raw != 0
    }

    /// Take ownership of a duplicated icon handle; the null sentinel is not a
    /// handle and is refused.
    pub fn new(raw: usize) -> (r: Option<IconHandle>)
        ensures
            raw != 0 ==> (r matches Some(h) && h.raw_spec() == raw),
            raw == 0 ==> r is None,
    {
        if raw != 0 {
            Some(IconHandle { raw })
        } else {
            None
        }
    }

    /// The raw handle value, for handing to a native call that does not take
    /// ownership; the handle stays owned here.
    pub fn as_raw(&self) -> (r: usize)
        ensures
            r == self.raw_spec(),
            r != 0,
    {
        proof {
            use_type_invariant(self);
        }
        self.raw
    }

    /// Surrender the handle for release. The owner is consumed, so each
    /// handle can be surrendered at most once.
    pub fn release(self) -> (r: usize)
        ensures
            r == self.raw_spec(),
            r != 0,
    {
        proof {
            use_type_invariant(&self);
        }
        let IconHandle { raw } = self;
        raw
    }
}

/// Owner of one duplicated native bitmap handle, under the same discipline as
/// [`IconHandle`].
#[derive(Debug)]
pub struct BitmapHandle {
    raw: usize,
}

impl BitmapHandle {
    /// The wrapped raw handle value.
    pub closed spec fn raw_spec(&self) -> usize {
        self.raw
    }

    #[verifier::type_invariant]
    spec fn wf(&self) -> bool {
        self.raw != 0
    }

    /// Take ownership of a duplicated bitmap handle; the null sentinel is
    /// refused.
    pub fn new(raw: usize) -> (r: Option<BitmapHandle>)
        ensures
            raw != 0 ==> (r matches Some(h) && h.raw_spec() == raw),
            raw == 0 ==> r is None,
    {
        if raw != 0 {
            Some(BitmapHandle { raw })
        } else {
            None
        }
    }

    /// The raw handle value, for handing to a native call that does not take
    /// ownership; the handle stays owned here.
    pub fn as_raw(&self) -> (r: usize)
        ensures
            r == self.raw_spec(),
            r != 0,
    {
        proof {
            use_type_invariant(self);
        }
        self.raw
    }

    /// Surrender the handle for release; the owner is consumed.
    pub fn release(self) -> (r: usize)
        ensures
            r == self.raw_spec(),
            r != 0,
    {
        proof {
            use_type_invariant(&self);
        }
        let BitmapHandle { raw } = self;
        raw
    }
}

/// The three-bitmap iconography of a component: small, small-open and large
/// images plus the transparency mask colour.
#[derive(Debug)]
pub struct MMCSnapInImage {
    pub small: BitmapHandle,
    pub small_open: BitmapHandle,
    pub large: BitmapHandle,
    pub mask: u32,
}

impl MMCSnapInImage {
    /// The raw handles this triad owns, in field order.
    pub open spec fn spec_handles(&self) -> Seq<usize> {
        seq![self.small.raw_spec(), self.small_open.raw_spec(), self.large.raw_spec()]
    }

    /// Surrender all three bitmap handles for release, each exactly once.
    pub fn release_handles(self) -> (r: Vec<usize>)
        ensures
            r@ == self.spec_handles(),
            forall|i: int| 0 <= i < r@.len() ==> r@[i] != 0,
    {
        let MMCSnapInImage { small, small_open, large, mask: _ } = self;
        let mut out: Vec<usize> = Vec::new();
        out.push(small.release());
        out.push(small_open.release());
        out.push(large.release());
        proof {
            assert(out@ =~= self.spec_handles());
        }
        out
    }
}

/// Metadata obtained by activating a component's capability object. Each
/// field is absent where the corresponding query returned nothing.
#[derive(Debug)]
pub struct MMCSnapInAbout {
    pub description: Option<String>,
    pub provider: Option<String>,
    pub version: Option<String>,
    pub icon: Option<IconHandle>,
    pub image: Option<MMCSnapInImage>,
}

impl MMCSnapInAbout {
    /// The raw handles this sub-record owns: the icon, if any, then the
    /// bitmap triad, if any.
    pub open spec fn spec_handles(&self) -> Seq<usize> {
        (match self.icon {
            Some(h) => seq![h.raw_spec()],
            None => Seq::<usize>::empty(),
        }) + (match self.image {
            Some(im) => im.spec_handles(),
            None => Seq::<usize>::empty(),
        })
    }

    /// Surrender every owned handle for release, each exactly once; a
    /// sub-record without visual resources surrenders nothing.
    pub fn release_handles(self) -> (r: Vec<usize>)
        ensures
            r@ == self.spec_handles(),
            forall|i: int| 0 <= i < r@.len() ==> r@[i] != 0,
    {
        let MMCSnapInAbout { icon, image, description: _, provider: _, version: _ } = self;
        let mut out: Vec<usize> = Vec::new();
        match icon {
            Some(h) => {
                out.push(h.release());
            },
            None => {},
        }
        match image {
            Some(im) => {
                let MMCSnapInImage { small, small_open, large, mask: _ } = im;
                out.push(small.release());
                out.push(small_open.release());
                out.push(large.release());
            },
            None => {},
        }
        proof {
            assert(out@ =~= self.spec_handles());
        }
        out
    }
}

/// The metadata record of one registered component.
#[derive(Debug)]
pub struct MMCSnapIn {
    /// The component's identifier, the key of its configuration entry.
    pub clsid: String,
    /// Metadata from the activated capability object, where activation was
    /// asked for and succeeded.
    pub about: Option<MMCSnapInAbout>,
    pub namestring: Option<String>,
    pub description: Option<String>,
    pub namestringindirect: Option<String>,
    /// Whether the entry carries the standalone-use marker subkey.
    pub standalone: bool,
    pub providerstringindirect: Option<String>,
    pub versionstringindirect: Option<String>,
    pub application_base: Option<String>,
    pub module_name: Option<String>,
}

/// The ASCII lower-case fold of a character, as its scalar value.
pub open spec fn lower_code(c: char) -> int {
    if 65 <= c as u32 <= 90 {
        c as u32 + 32
    } else {
        c as u32 as int
    }
}

/// Whether two character sequences agree up to ASCII case.
pub open spec fn eq_ignore_ascii_case_spec(a: Seq<char>, b: Seq<char>) -> bool {
    a.len() == b.len() && forall|i: int|
        0 <= i < a.len() ==> lower_code(#[trigger] a[i]) == lower_code(b[i])
}

/// The marker subkey name, lower-cased.
pub open spec fn standalone_chars() -> Seq<char> {
    seq!['s', 't', 'a', 'n', 'd', 'a', 'l', 'o', 'n', 'e']
}

/// Whether a subkey name is the standalone-use marker, compared without
/// regard to ASCII case.
pub open spec fn is_standalone_name(s: Seq<char>) -> bool {
    eq_ignore_ascii_case_spec(s, standalone_chars())
}

/// Whether one enumerated subkey entry is a successfully read marker subkey.
pub open spec fn subkey_matches(e: Option<String>) -> bool {
    e matches Some(k) && is_standalone_name(k@)
}

/// Whether a subkey listing carries the standalone-use marker: some entry
/// enumerated successfully and names the marker subkey. Entries that failed
/// to enumerate count for nothing, in neither direction.
pub open spec fn spec_standalone(keys: Seq<Option<String>>) -> bool {
    exists|i: int| 0 <= i < keys.len() && subkey_matches(#[trigger] keys[i])
}

/// The ASCII lower-case fold of a character's scalar value.
fn lower_scalar(c: char) -> (r: u32)
    ensures
        r == lower_code(c),
{
    let u = c as u32;
    if 65 <= u && u <= 90 {
        u + 32
    } else {
        u
    }
}

/// Whether two strings agree up to ASCII case.
#[verifier::loop_isolation(false)]
fn eq_ignore_case(a: &str, b: &str) -> (r: bool)
    ensures
        r == eq_ignore_ascii_case_spec(a@, b@),
{
    let n = a.unicode_len();
    if n != b.unicode_len() {
        return false;
    }
    let mut i: usize = 0;
    while i < n
        invariant
            0 <= i <= n,
            forall|t: int| 0 <= t < i ==> lower_code(#[trigger] a@[t]) == lower_code(b@[t]),
        decreases n - i,
    {
        if lower_scalar(a.get_char(i)) != lower_scalar(b.get_char(i)) {
            return false;
        }
        i += 1;
    }
    true
}

/// Whether two strings hold the same characters.
#[verifier::loop_isolation(false)]
fn str_eq(a: &str, b: &str) -> (r: bool)
    ensures
        r == (a@ == b@),
{
    let n = a.unicode_len();
    if n != b.unicode_len() {
        return false;
    }
    let mut i: usize = 0;
    while i < n
        invariant
            0 <= i <= n,
            forall|t: int| 0 <= t < i ==> a@[t] == b@[t],
        decreases n - i,
    {
        if a.get_char(i) != b.get_char(i) {
            return false;
        }
        i += 1;
    }
    proof {
        assert(a@ =~= b@);
    }
    true
}

/// Whether a subkey listing carries the standalone-use marker. An entry that
/// failed to enumerate is skipped; it neither sets the flag nor suppresses a
/// marker found elsewhere in the listing.
#[verifier::loop_isolation(false)]
pub fn has_standalone_subkey(keys: &Vec<Option<String>>) -> (r: bool)
    ensures
        r == spec_standalone(keys@),
{
    let n = keys.len();
    let mut i: usize = 0;
    while i < n
        invariant
            0 <= i <= n,
            forall|t: int| 0 <= t < i ==> !subkey_matches(#[trigger] keys@[t]),
        decreases n - i,
    {
        proof {
            reveal_strlit("standalone");
            assert("standalone"@ =~= standalone_chars());
        }
        match &keys[i] {
            Some(k) => {
                if eq_ignore_case(k.as_str(), "standalone") {
                    proof {
                        assert(subkey_matches(keys@[i as int]));
                    }
                    return true;
                }
                proof {
                    assert(!is_standalone_name(k@));
                    assert(!subkey_matches(keys@[i as int]));
                }
            },
            None => {
                proof {
                    assert(!subkey_matches(keys@[i as int]));
                }
            },
        }
        i += 1;
    }
    false
}

/// The 128-bit value a piece of text denotes as a textual GUID, or `None`
/// where the text is not a well-formed one; it depends on the characters
/// alone.
pub uninterp spec fn guid_of(s: Seq<char>) -> Option<u128>;

/// Relies on uuid::Uuid::parse_str, which reads the textual GUID forms
/// (hyphenated, simple, braced, urn) into a 128-bit value; its result is a
/// function of the characters alone.
#[verifier::external_body]
fn parse_guid(s: &str) -> (r: Option<u128>)
    ensures
        r == guid_of(s@),
{
    uuid::Uuid::parse_str(s).ok().map(|u| u.as_u128())
}

/// A record's step outcome, stated abstractly: the outside lookup, if any,
/// that one applied value asks the caller to perform.
pub enum LookupModel {
    NoLookup,
    Resolve(IndirectField, Seq<char>, int),
    Activate(u128),
}

/// The abstract statement of one pending lookup.
pub open spec fn one_lookup_model(l: PendingLookup) -> LookupModel {
    match l {
        PendingLookup::Resolve(f, isr) => LookupModel::Resolve(f, isr.dllpath@, isr.strid as int),
        PendingLookup::Activate(g) => LookupModel::Activate(g),
    }
}

/// The abstract statement of an optional pending lookup.
pub open spec fn lookup_model(l: Option<PendingLookup>) -> LookupModel {
    match l {
        Some(x) => one_lookup_model(x),
        None => LookupModel::NoLookup,
    }
}

/// The abstract statement of a list of pending lookups.
pub open spec fn lookups_model(s: Seq<PendingLookup>) -> Seq<LookupModel> {
    s.map_values(|l: PendingLookup| one_lookup_model(l))
}

/// The lookup an indirect-string value yields: a resolution request where the
/// text parses, nothing where it does not (the field is then left absent).
pub open spec fn indirect_lookup(f: IndirectField, text: Seq<char>) -> LookupModel {
    match spec_parse(text) {
        Ok(pv) => LookupModel::Resolve(f, pv.0, pv.1),
        Err(_) => LookupModel::NoLookup,
    }
}

/// A fresh record for the component `clsid`: every metadata field absent, the
/// standalone flag down.
pub open spec fn spec_new(clsid: String) -> MMCSnapIn {
    MMCSnapIn {
        clsid,
        about: None,
        namestring: None,
        description: None,
        namestringindirect: None,
        standalone: false,
        providerstringindirect: None,
        versionstringindirect: None,
        application_base: None,
        module_name: None,
    }
}

/// What applying one named value does to a record: which field it fills, or
/// which outside lookup it asks for. Value names not recognised here, and
/// recognised names whose data is not a string, change nothing.
pub open spec fn apply_value_spec(rec: MMCSnapIn, v: NamedValue) -> (MMCSnapIn, LookupModel) {
    match v.data {
        ValueData::Other => (rec, LookupModel::NoLookup),
        ValueData::Str(s) => {
            if v.name@ == "About"@ {
                match guid_of(s@) {
                    Some(g) => (rec, LookupModel::Activate(g)),
                    None => (rec, LookupModel::NoLookup),
                }
            } else if v.name@ == "NameString"@ {
                (MMCSnapIn { namestring: Some(s), ..rec }, LookupModel::NoLookup)
            } else if v.name@ == "NameStringIndirect"@ {
                (rec, indirect_lookup(IndirectField::Name, s@))
            } else if v.name@ == "ProviderStringIndirect"@ {
                (rec, indirect_lookup(IndirectField::Provider, s@))
            } else if v.name@ == "VersionStringIndirect"@ {
                (rec, indirect_lookup(IndirectField::Version, s@))
            } else if v.name@ == "ApplicationBase"@ {
                (MMCSnapIn { application_base: Some(s), ..rec }, LookupModel::NoLookup)
            } else if v.name@ == "ModuleName"@ {
                (MMCSnapIn { module_name: Some(s), ..rec }, LookupModel::NoLookup)
            } else if v.name@ == "Description"@ {
                (MMCSnapIn { description: Some(s), ..rec }, LookupModel::NoLookup)
            } else {
                (rec, LookupModel::NoLookup)
            }
        },
    }
}

/// What applying a whole list of named values does to a record, first value
/// first, collecting the outside lookups in the order they were asked for.
pub open spec fn resolve_values_spec(rec: MMCSnapIn, vals: Seq<NamedValue>) -> (
    MMCSnapIn,
    Seq<LookupModel>,
)
    decreases vals.len(),
{
    if vals.len() == 0 {
        (rec, Seq::<LookupModel>::empty())
    } else {
        let step = apply_value_spec(rec, vals[0]);
        let rest = resolve_values_spec(step.0, vals.drop_first());
        (
            rest.0,
            if step.1 is NoLookup {
                rest.1
            } else {
                seq![step.1] + rest.1
            },
        )
    }
}

/// What resolving a component against the data of its configuration entry
/// yields: the record with every store-derived field filled, and the outside
/// lookups that remain.
pub open spec fn resolve_spec(clsid: String, cd: ComponentData) -> (MMCSnapIn, Seq<LookupModel>) {
    let start = MMCSnapIn { standalone: spec_standalone(cd.subkeys@), ..spec_new(clsid) };
    resolve_values_spec(start, cd.values@)
}

/// What feeding back one resolution outcome does to a record: a resolved
/// string fills exactly the field the request was for; a failed resolution
/// leaves the record exactly as it was.
pub open spec fn apply_resolution_spec(
    rec: MMCSnapIn,
    field: IndirectField,
    outcome: Result<String, ResolveError>,
) -> MMCSnapIn {
    match outcome {
        Err(_) => rec,
        Ok(s) => match field {
            IndirectField::Name => MMCSnapIn { namestringindirect: Some(s), ..rec },
            IndirectField::Provider => MMCSnapIn { providerstringindirect: Some(s), ..rec },
            IndirectField::Version => MMCSnapIn { versionstringindirect: Some(s), ..rec },
        },
    }
}

/// What feeding back the activation outcome does to a record: a successful
/// activation attaches its sub-record; a failed one leaves the record exactly
/// as it was.
pub open spec fn apply_activation_spec(
    rec: MMCSnapIn,
    outcome: Result<MMCSnapInAbout, ActivationError>,
) -> MMCSnapIn {
    match outcome {
        Ok(a) => MMCSnapIn { about: Some(a), ..rec },
        Err(_) => rec,
    }
}

impl MMCSnapIn {
    /// A fresh record for the component `clsid`.
    pub fn new(clsid: String) -> (r: MMCSnapIn)
        ensures
            r == spec_new(clsid),
    {
        MMCSnapIn {
            clsid,
            about: None,
            namestring: None,
            description: None,
            namestringindirect: None,
            standalone: false,
            providerstringindirect: None,
            versionstringindirect: None,
            application_base: None,
            module_name: None,
        }
    }

    /// Apply one named value of the configuration entry to the record,
    /// returning the outside lookup it asks for, if any.
    pub fn apply_value(&mut self, v: &NamedValue) -> (r: Option<PendingLookup>)
        ensures
            (*final(self), lookup_model(r)) == apply_value_spec(*old(self), *v),
    {
        match &v.data {
            ValueData::Other => None,
            ValueData::Str(s) => {
                if str_eq(v.name.as_str(), "About") {
                    match parse_guid(s.as_str()) {
                        Some(g) => Some(PendingLookup::Activate(g)),
                        None => None,
                    }
                } else if str_eq(v.name.as_str(), "NameString") {
                    self.namestring = Some(s.clone());
                    None
                } else if str_eq(v.name.as_str(), "NameStringIndirect") {
                    match IndirectString::parse(s.as_str()) {
                        Ok(isr) => Some(PendingLookup::Resolve(IndirectField::Name, isr)),
                        Err(_) => None,
                    }
                } else if str_eq(v.name.as_str(), "ProviderStringIndirect") {
                    match IndirectString::parse(s.as_str()) {
                        Ok(isr) => Some(PendingLookup::Resolve(IndirectField::Provider, isr)),
                        Err(_) => None,
                    }
                } else if str_eq(v.name.as_str(), "VersionStringIndirect") {
                    match IndirectString::parse(s.as_str()) {
                        Ok(isr) => Some(PendingLookup::Resolve(IndirectField::Version, isr)),
                        Err(_) => None,
                    }
                } else if str_eq(v.name.as_str(), "ApplicationBase") {
                    self.application_base = Some(s.clone());
                    None
                } else if str_eq(v.name.as_str(), "ModuleName") {
                    self.module_name = Some(s.clone());
                    None
                } else if str_eq(v.name.as_str(), "Description") {
                    self.description = Some(s.clone());
                    None
                } else {
                    None
                }
            },
        }
    }

    /// Resolve a component's record from the data of its configuration entry,
    /// or fail with `NotRegistered` — and nothing else — where the entry is
    /// missing. The returned lookups are what the caller still has to
    /// perform outside; their outcomes are fed back through
    /// [`MMCSnapIn::apply_resolution`] and [`MMCSnapIn::apply_activation`].
    #[verifier::loop_isolation(false)]
    pub fn resolve(clsid: String, entry: Option<ComponentData>) -> (r: Result<
        (MMCSnapIn, Vec<PendingLookup>),
        StoreError,
    >)
        ensures
            match entry {
                None => r == Err::<(MMCSnapIn, Vec<PendingLookup>), StoreError>(
                    StoreError::NotRegistered,
                ),
                Some(cd) => r matches Ok(out) && out.0 == resolve_spec(clsid, cd).0
                    && lookups_model(out.1@) == resolve_spec(clsid, cd).1,
            },
    {
        let cd = match entry {
            None => {
                return Err(StoreError::NotRegistered);
            },
            Some(cd) => cd,
        };
        let mut rec = MMCSnapIn::new(clsid);
        rec.standalone = has_standalone_subkey(&cd.subkeys);
        let ghost start = rec;
        let mut lookups: Vec<PendingLookup> = Vec::new();
        let n = cd.values.len();
        let mut i: usize = 0;
        proof {
            assert(cd.values@.subrange(0, n as int) =~= cd.values@);
            assert(lookups_model(lookups@) =~= Seq::<LookupModel>::empty());
        }
        while i < n
            invariant
                0 <= i <= n,
                resolve_values_spec(start, cd.values@) == ({
                    let rest = resolve_values_spec(
                        rec,
                        cd.values@.subrange(i as int, n as int),
                    );
                    (rest.0, lookups_model(lookups@) + rest.1)
                }),
            decreases n - i,
        {
            let ghost vals = cd.values@;
            let ghost looks0 = lookups@;
            proof {
                assert(vals.subrange(i as int, n as int).drop_first() =~= vals.subrange(
                    i + 1,
                    n as int,
                ));
                assert(vals.subrange(i as int, n as int)[0] == vals[i as int]);
            }
            let act = rec.apply_value(&cd.values[i]);
            if let Some(l) = act {
                lookups.push(l);
                proof {
                    assert(lookups_model(lookups@) =~= lookups_model(looks0).push(
                        one_lookup_model(l),
                    ));
                    let rest = resolve_values_spec(rec, vals.subrange(i + 1, n as int));
                    assert(lookups_model(looks0) + (seq![one_lookup_model(l)] + rest.1)
                        =~= lookups_model(lookups@) + rest.1);
                }
            }
            i += 1;
        }
        proof {
            assert(cd.values@.subrange(n as int, n as int) =~= Seq::<NamedValue>::empty());
            let rest = resolve_values_spec(rec, cd.values@.subrange(n as int, n as int));
            assert(lookups_model(lookups@) + rest.1 =~= lookups_model(lookups@));
        }
        Ok((rec, lookups))
    }

    /// Feed back the outcome of one requested indirect-string resolution. A
    /// resolved string fills exactly the requested field; either resolution
    /// error leaves the record untouched and is never surfaced further.
    pub fn apply_resolution(&mut self, field: IndirectField, outcome: Result<String, ResolveError>)
        ensures
            *final(self) == apply_resolution_spec(*old(self), field, outcome),
    {
        match outcome {
            Err(_) => {},
            Ok(s) => match field {
                IndirectField::Name => {
                    self.namestringindirect = Some(s);
                },
                IndirectField::Provider => {
                    self.providerstringindirect = Some(s);
                },
                IndirectField::Version => {
                    self.versionstringindirect = Some(s);
                },
            },
        }
    }

    /// Feed back the outcome of the requested activation. Success attaches
    /// the sub-record; failure leaves the record untouched and is never
    /// surfaced further.
    pub fn apply_activation(&mut self, outcome: Result<MMCSnapInAbout, ActivationError>)
        ensures
            *final(self) == apply_activation_spec(*old(self), outcome),
    {
        match outcome {
            Ok(a) => {
                self.about = Some(a);
            },
            Err(_) => {},
        }
    }

    /// The raw handles this record owns through its `about` sub-record.
    pub open spec fn spec_handles(&self) -> Seq<usize> {
        match self.about {
            Some(a) => a.spec_handles(),
            None => Seq::<usize>::empty(),
        }
    }

    /// Surrender every owned handle for release, each exactly once.
    pub fn release_handles(self) -> (r: Vec<usize>)
        ensures
            r@ == self.spec_handles(),
            forall|i: int| 0 <= i < r@.len() ==> r@[i] != 0,
    {
        match self.about {
            Some(a) => a.release_handles(),
            None => Vec::new(),
        }
    }
}

/// Per-field degradation: a direct name already read survives a failed
/// indirect resolution. After a `NameString` value fills the direct name and
/// the resolution of the indirect name then fails, the record still holds the
/// direct name, the indirect field stays absent, and neither step surfaced an
/// error or asked for anything further.
pub proof fn lemma_direct_survives_failed_indirect(
    rec: MMCSnapIn,
    name: String,
    s: String,
    e: ResolveError,
)
    requires
        name@ == "NameString"@,
        rec.namestringindirect is None,
    ensures
        ({
            let step = apply_value_spec(rec, NamedValue { name, data: ValueData::Str(s) });
            let after = apply_resolution_spec(
                step.0,
                IndirectField::Name,
                Err::<String, ResolveError>(e),
            );
            after.namestring == Some::<String>(s) && after.namestringindirect is None && step.1
                is NoLookup
        }),
{
    reveal_strlit("NameString");
    reveal_strlit("About");
    assert("NameString"@.len() == 10);
    assert("About"@.len() == 5);
}

/// An enumeration error on one sibling subkey never hides the marker, nor
/// invents it: inserting a failed enumeration entry anywhere into a subkey
/// listing leaves the standalone decision unchanged.
pub proof fn lemma_subkey_error_ignored(keys: Seq<Option<String>>, i: int)
    requires
        0 <= i <= keys.len(),
    ensures
        spec_standalone(keys.insert(i, Option::<String>::None)) == spec_standalone(keys),
{
    let keys2 = keys.insert(i, Option::<String>::None);
    keys.insert_ensures(i, Option::<String>::None);
    if spec_standalone(keys) {
        let j = choose|j: int| 0 <= j < keys.len() && subkey_matches(#[trigger] keys[j]);
        if j < i {
            assert(keys2[j] == keys[j]);
            assert(subkey_matches(keys2[j]));
        } else {
            assert(keys2[j + 1] == keys[j]);
            assert(subkey_matches(keys2[j + 1]));
        }
    }
    if spec_standalone(keys2) {
        let j2 = choose|j: int| 0 <= j < keys2.len() && subkey_matches(#[trigger] keys2[j]);
        if j2 < i {
            assert(keys[j2] == keys2[j2]);
            assert(subkey_matches(keys[j2]));
        } else if j2 == i {
            assert(keys2[j2] is None);
        } else {
            assert(keys2[j2] == keys[j2 - 1]);
            assert(subkey_matches(keys[j2 - 1]));
        }
    }
}

} // verus!

