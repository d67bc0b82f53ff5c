//! What the Lua bindings derived for a Rust type consist of: the options
//! read from `#[lua(...)]` attributes, the names of the methods generated
//! for an enum's variants, and the fields exposed for a struct. The token
//! generation itself belongs to the procedural macro around this.

use vstd::prelude::*;
use crate::text::{str_eq, push_char, push_text};

verus! {

// ---------------------------------------------------------------------
// Names

/// Whether a character has the Unicode `Uppercase` property.
pub uninterp spec fn is_upper(c: char) -> bool;

/// The first character of a character's lower-case mapping.
pub uninterp spec fn lower_first(c: char) -> char;

/// `char::is_uppercase`. Which characters are upper case is named by
/// [`is_upper`].
#[verifier::external_body]
fn char_is_uppercase(c: char) -> (r: bool)
    ensures
        r == is_upper(c),
{
    c.is_uppercase()
}

/// The first character that `char::to_lowercase` yields; the documentation
/// promises it yields at least one. The mapping is named by
/// [`lower_first`].
#[verifier::external_body]
fn char_to_lowercase_first(c: char) -> (r: char)
    ensures
        r == lower_first(c),
{
    c.to_lowercase().next().unwrap_or(c)
}

/// The snake-case form of a name: each upper-case character is put in
/// lower case, with an underscore before it unless it comes first.
pub open spec fn snake_case(s: Seq<char>) -> Seq<char>
    decreases s.len(),
{
    if s.len() == 0 {
        Seq::empty()
    } else {
        let p = snake_case(s.drop_last());
        let c = s.last();
        if is_upper(c) {
            if p.len() > 0 {
                p.push('_').push(lower_first(c))
            } else {
                p.push(lower_first(c))
            }
        } else {
            p.push(c)
        }
    }
}

/// Converts a name to snake case, as [`snake_case`].
pub fn to_snake_case(s: &str) -> (r: String)
    ensures
        r@ == snake_case(s@),
{
    let mut result = String::new();
    for ch in it: s.chars()
        invariant
            result@ == snake_case(it.seq().take(it.index() as int)),
    {
        let ghost prefix = it.seq().take(it.index() as int);
        let ghost next = it.seq().take(it.index() + 1);
        assert(next.drop_last() =~= prefix);
        assert(next.last() == ch);
        if char_is_uppercase(ch) {
            if !result.as_str().is_empty() {
                push_char(&mut result, '_');
            }
            push_char(&mut result, char_to_lowercase_first(ch));
        } else {
            push_char(&mut result, ch);
        }
    }
    assert(s@.take(s@.len() as int) =~= s@);
    result
}

/// The decimal digits of a number.
pub open spec fn decimal(n: nat) -> Seq<char>
    decreases n,
{
    if n < 10 {
        seq![digit_char(n)]
    } else {
        decimal(n / 10).push(digit_char(n % 10))
    }
}

/// The character of a digit.
pub open spec fn digit_char(d: nat) -> char {
    if d == 0 {
        '0'
    } else if d == 1 {
        '1'
    } else if d == 2 {
        '2'
    } else if d == 3 {
        '3'
    } else if d == 4 {
        '4'
    } else if d == 5 {
        '5'
    } else if d == 6 {
        '6'
    } else if d == 7 {
        '7'
    } else if d == 8 {
        '8'
    } else {
        '9'
    }
}

fn digit(d: usize) -> (r: char)
    requires
        d < 10,
    ensures
        r == digit_char(d as nat),
{
    if d == 0 {
        '0'
    } else if d == 1 {
        '1'
    } else if d == 2 {
        '2'
    } else if d == 3 {
        '3'
    } else if d == 4 {
        '4'
    } else if d == 5 {
        '5'
    } else if d == 6 {
        '6'
    } else if d == 7 {
        '7'
    } else if d == 8 {
        '8'
    } else {
        '9'
    }
}

/// Writes a number in decimal.
pub fn decimal_string(n: usize) -> (r: String)
    ensures
        r@ == decimal(n as nat),
    decreases n,
{
    if n < 10 {
        let mut s = String::new();
        push_char(&mut s, digit(n));
        assert(s@ =~= seq![digit_char(n as nat)]);
        s
    } else {
        let mut s = decimal_string(n / 10);
        push_char(&mut s, digit(n % 10));
        s
    }
}

// ---------------------------------------------------------------------
// Attributes

/// Why the attributes of a type could not be read.
#[derive(Clone, Debug, PartialEq, Eq)]
pub enum AttrError {
    /// An option that is not understood; carries its name.
    Unsupported(String),
    /// A `rename` whose value is not a string literal.
    RenameNotString,
    /// A `rename` without a value.
    MissingValue,
}

/// The options of a type's `#[lua(...)]` attributes.
#[derive(Clone, Copy, Debug, Default, PartialEq, Eq, Structural)]
pub struct ContainerAttrs {
    /// `serde`: add conversion to and from JSON.
    pub serde: bool,
    /// `Eq`: add the equality metamethod.
    pub eq: bool,
}

/// The container options set by a list of option names, or the first name
/// that is not an option.
pub open spec fn container_options(names: Seq<Seq<char>>) -> Result<(bool, bool), Seq<char>>
    decreases names.len(),
{
    if names.len() == 0 {
        Ok((false, false))
    } else {
        match container_options(names.drop_last()) {
            Err(e) => Err(e),
            Ok((s, e)) => if names.last() == "serde"@ {
                Ok((true, e))
            } else if names.last() == "Eq"@ {
                Ok((s, true))
            } else {
                Err(names.last())
            },
        }
    }
}

/// The characters of a list of strings.
pub open spec fn names_view(names: Seq<String>) -> Seq<Seq<char>> {
    Seq::new(names.len(), |i: int| names[i]@)
}

impl ContainerAttrs {
    /// Reads the option names found in a type's `#[lua(...)]` attributes,
    /// in order: `serde` and `Eq` are accepted, anything else is refused.
    pub fn from_options(names: &Vec<String>) -> (r: Result<ContainerAttrs, AttrError>)
        ensures
            match container_options(names_view(names@)) {
                Ok((s, e)) => r == Ok::<ContainerAttrs, AttrError>(ContainerAttrs { serde: s, eq: e }),
                Err(n) => r matches Err(AttrError::Unsupported(m)) && m@ == n,
            },
    {
        let mut attrs = ContainerAttrs { serde: false, eq: false };
        let mut i: usize = 0;
        while i < names.len()
            invariant
                i <= names@.len(),
                container_options(names_view(names@).subrange(0, i as int)) == Ok::<(bool, bool), Seq<char>>((attrs.serde, attrs.eq)),
            decreases names.len() - i,
        {
            let ghost pre = names_view(names@).subrange(0, i as int);
            let ghost next = names_view(names@).subrange(0, i + 1);
            assert(next.drop_last() =~= pre);
            assert(next.last() == names@[i as int]@);
            if str_eq(names[i].as_str(), "serde") {
                attrs.serde = true;
            } else if str_eq(names[i].as_str(), "Eq") {
                attrs.eq = true;
            } else {
                proof {
                    lemma_container_error_sticks(names_view(names@), i + 1);
                }
                return Err(AttrError::Unsupported(names[i].clone()));
            }
            i = i + 1;
        }
        assert(names_view(names@).subrange(0, names@.len() as int) =~= names_view(names@));
        Ok(attrs)
    }
}

/// Once an option is refused, longer lists are refused for the same option.
proof fn lemma_container_error_sticks(names: Seq<Seq<char>>, k: int)
    requires
        0 <= k <= names.len(),
        container_options(names.subrange(0, k)) is Err,
    ensures
        container_options(names) == container_options(names.subrange(0, k)),
    decreases names.len() - k,
{
    if k < names.len() {
        let next = names.subrange(0, k + 1);
        assert(next.drop_last() =~= names.subrange(0, k));
        lemma_container_error_sticks(names, k + 1);
    } else {
        assert(names.subrange(0, k) =~= names);
    }
}

/// The value given to an option of a variant's `#[lua(...)]` attribute.
#[derive(Clone, Debug, PartialEq, Eq)]
pub enum MetaValue {
    /// No `= value`.
    Absent,
    /// A string literal.
    Str(String),
    /// A literal of another kind.
    NonString,
}

/// One option of a variant's `#[lua(...)]` attribute.
#[derive(Clone, Debug, PartialEq, Eq)]
pub struct MetaItem {
    pub name: String,
    pub value: MetaValue,
}

/// The options of a variant's `#[lua(...)]` attributes.
#[derive(Clone, Debug, Default, PartialEq, Eq)]
pub struct VariantAttrs {
    /// The name the variant has in Lua, when it is not its Rust name.
    pub rename: Option<String>,
}

/// What a list of variant options sets the Lua name to, or the error it
/// meets first.
pub open spec fn variant_options(items: Seq<MetaItem>) -> Result<Option<Seq<char>>, AttrError>
    decreases items.len(),
{
    if items.len() == 0 {
        Ok(None)
    } else {
        match variant_options(items.drop_last()) {
            Err(e) => Err(e),
            Ok(prev) => {
                let it = items.last();
                if it.name@ == "rename"@ {
                    match it.value {
                        MetaValue::Str(s) => Ok(Some(s@)),
                        MetaValue::NonString => Err(AttrError::RenameNotString),
                        MetaValue::Absent => Err(AttrError::MissingValue),
                    }
                } else {
                    Err(AttrError::Unsupported(it.name))
                }
            },
        }
    }
}

impl VariantAttrs {
    /// Reads the options found in a variant's `#[lua(...)]` attributes, in
    /// order: only `rename = "..."` is accepted; a later rename wins.
    pub fn from_options(items: &Vec<MetaItem>) -> (r: Result<VariantAttrs, AttrError>)
        ensures
            match variant_options(items@) {
                Ok(Some(n)) => r matches Ok(a) && a.rename matches Some(s) && s@ == n,
                Ok(None) => r matches Ok(a) && a.rename is None,
                Err(e) => r matches Err(f) && match (e, f) {
                    (AttrError::Unsupported(x), AttrError::Unsupported(y)) => x@ == y@,
                    (AttrError::RenameNotString, AttrError::RenameNotString) => true,
                    (AttrError::MissingValue, AttrError::MissingValue) => true,
                    _ => false,
                },
            },
    {
        let mut rename: Option<String> = None;
        let mut i: usize = 0;
        while i < items.len()
            invariant
                i <= items@.len(),
                match variant_options(items@.subrange(0, i as int)) {
                    Ok(Some(n)) => rename matches Some(s) && s@ == n,
                    Ok(None) => rename is None,
                    Err(_) => false,
                },
            decreases items.len() - i,
        {
            let ghost pre = items@.subrange(0, i as int);
            let ghost next = items@.subrange(0, i + 1);
            assert(next.drop_last() =~= pre);
            assert(next.last() == items@[i as int]);
            let it = &items[i];
            if str_eq(it.name.as_str(), "rename") {
                match &it.value {
                    MetaValue::Str(s) => {
                        rename = Some(s.clone());
                    },
                    MetaValue::NonString => {
                        proof {
                            lemma_variant_error_sticks(items@, i + 1);
                        }
                        return Err(AttrError::RenameNotString);
                    },
                    MetaValue::Absent => {
                        proof {
                            lemma_variant_error_sticks(items@, i + 1);
                        }
                        return Err(AttrError::MissingValue);
                    },
                }
            } else {
                proof {
                    lemma_variant_error_sticks(items@, i + 1);
                }
                return Err(AttrError::Unsupported(it.name.clone()));
            }
            i = i + 1;
        }
        assert(items@.subrange(0, items@.len() as int) =~= items@);
        Ok(VariantAttrs { rename })
    }
}

/// Once a variant option is refused, longer lists are refused the same way.
proof fn lemma_variant_error_sticks(items: Seq<MetaItem>, k: int)
    requires
        0 <= k <= items.len(),
        variant_options(items.subrange(0, k)) is Err,
    ensures
        variant_options(items) == variant_options(items.subrange(0, k)),
    decreases items.len() - k,
{
    if k < items.len() {
        let next = items.subrange(0, k + 1);
        assert(next.drop_last() =~= items.subrange(0, k));
        lemma_variant_error_sticks(items, k + 1);
    } else {
        assert(items.subrange(0, k) =~= items);
    }
}

// ---------------------------------------------------------------------
// Enums

/// The fields of an enum variant.
#[derive(Clone, Debug, PartialEq, Eq)]
pub enum VariantFields {
    Unit,
    /// A tuple variant with this many fields.
    Unnamed(usize),
    /// A struct variant with these field names.
    Named(Vec<String>),
}

/// The name a variant has in Lua: its rename, else its Rust name.
pub open spec fn lua_name_spec(variant: Seq<char>, rename: Option<Seq<char>>) -> Seq<char> {
    match rename {
        Some(n) => n,
        None => variant,
    }
}

/// The name a variant has in Lua: its rename, else its Rust name.
pub fn lua_name(variant: &str, attrs: &VariantAttrs) -> (r: String)
    ensures
        r@ == lua_name_spec(
            variant@,
            match attrs.rename {
                Some(s) => Some(s@),
                None => None,
            },
        ),
{
    match &attrs.rename {
        Some(n) => n.clone(),
        None => variant.to_owned(),
    }
}

/// The methods generated for a variant called `name` in Lua: `is_<name>`
/// always; `get_<name>` for a tuple variant of one field; `get_<name>_<i>`
/// for each field of another tuple variant; `get_<name>_<field>` for each
/// field of a struct variant; `<name>` in snake case throughout.
pub open spec fn variant_methods(name: Seq<char>, fields: VariantFields) -> Seq<Seq<char>> {
    let n = snake_case(name);
    let is_method = "is_"@ + n;
    match fields {
        VariantFields::Unit => seq![is_method],
        VariantFields::Unnamed(k) => if k == 1 {
            seq![is_method, "get_"@ + n]
        } else {
            seq![is_method] + Seq::new(k as nat, |i: int| "get_"@ + n + "_"@ + decimal(i as nat))
        },
        VariantFields::Named(fs) => seq![is_method] + Seq::new(
            fs@.len(),
            |i: int| "get_"@ + n + "_"@ + fs@[i]@,
        ),
    }
}

/// The names of the methods generated for a variant, as
/// [`variant_methods`].
pub fn variant_method_names(name: &str, fields: &VariantFields) -> (r: Vec<String>)
    ensures
        names_view(r@) == variant_methods(name@, *fields),
{
    let snake = to_snake_case(name);
    let mut is_method = "is_".to_owned();
    push_text(&mut is_method, snake.as_str());
    let mut get_base = "get_".to_owned();
    push_text(&mut get_base, snake.as_str());
    let mut out: Vec<String> = Vec::new();
    out.push(is_method);
    match fields {
        VariantFields::Unit => {},
        VariantFields::Unnamed(k) => {
            if *k == 1 {
                out.push(get_base);
            } else {
                let mut i: usize = 0;
                while i < *k
                    invariant
                        i <= *k,
                        get_base@ == "get_"@ + snake_case(name@),
                        out@.len() == i + 1,
                        out@[0]@ == "is_"@ + snake_case(name@),
                        forall|j: int|
                            0 <= j < i ==> #[trigger] out@[j + 1]@ == "get_"@ + snake_case(name@)
                                + "_"@ + decimal(j as nat),
                    decreases *k - i,
                {
                    let mut m = get_base.clone();
                    push_char(&mut m, '_');
                    let d = decimal_string(i);
                    push_text(&mut m, d.as_str());
                    let ghost before = out@;
                    out.push(m);
                    proof {
                        assert forall|j: int| 0 <= j < i + 1 implies #[trigger] out@[j + 1]@
                            == "get_"@ + snake_case(name@) + "_"@ + decimal(j as nat) by {
                            if j < i {
                                assert(out@[j + 1] == before[j + 1]);
                            } else {
                                assert(seq!['_'] =~= "_"@) by {
                                    reveal_strlit("_");
                                }
                            }
                        }
                    }
                    i = i + 1;
                }
            }
        },
        VariantFields::Named(fs) => {
            let mut i: usize = 0;
            while i < fs.len()
                invariant
                    i <= fs@.len(),
                    get_base@ == "get_"@ + snake_case(name@),
                    out@.len() == i + 1,
                    out@[0]@ == "is_"@ + snake_case(name@),
                    forall|j: int|
                        0 <= j < i ==> #[trigger] out@[j + 1]@ == "get_"@ + snake_case(name@) + "_"@
                            + fs@[j]@,
                decreases fs.len() - i,
            {
                let mut m = get_base.clone();
                push_text(&mut m, "_");
                push_text(&mut m, fs[i].as_str());
                let ghost before = out@;
                out.push(m);
                proof {
                    assert forall|j: int| 0 <= j < i + 1 implies #[trigger] out@[j + 1]@ == "get_"@
                        + snake_case(name@) + "_"@ + fs@[j]@ by {
                        if j < i {
                            assert(out@[j + 1] == before[j + 1]);
                        }
                    }
                }
                i = i + 1;
            }
        },
    }
    proof {
        let want = variant_methods(name@, *fields);
        assert(names_view(out@) =~= want) by {
            match fields {
                VariantFields::Unit => {},
                VariantFields::Unnamed(k) => {
                    if *k != 1 {
                        assert forall|j: int| 0 <= j < out@.len() implies #[trigger] names_view(out@)[j] == want[j] by {
                            if j > 0 {
                                assert(out@[(j - 1) + 1]@ == "get_"@ + snake_case(name@) + "_"@ + decimal((j - 1) as nat));
                            }
                        }
                    }
                },
                VariantFields::Named(fs) => {
                    assert forall|j: int| 0 <= j < out@.len() implies #[trigger] names_view(out@)[j] == want[j] by {
                        if j > 0 {
                            assert(out@[(j - 1) + 1]@ == "get_"@ + snake_case(name@) + "_"@ + fs@[j - 1]@);
                        }
                    }
                },
            }
        }
    }
    out
}

/// Whether every variant of an enum is a unit variant; such enums also
/// compare equal to the Lua string of their variant's name.
pub fn is_unit_enum(variants: &Vec<VariantFields>) -> (r: bool)
    ensures
        r == (forall|i: int| 0 <= i < variants@.len() ==> #[trigger] variants@[i] is Unit),
{
    let mut i: usize = 0;
    while i < variants.len()
        invariant
            i <= variants@.len(),
            forall|j: int| 0 <= j < i ==> #[trigger] variants@[j] is Unit,
        decreases variants.len() - i,
    {
        match &variants[i] {
            VariantFields::Unit => {},
            _ => {
                return false;
            },
        }
        i = i + 1;
    }
    true
}

// ---------------------------------------------------------------------
// Structs

/// The fields of a struct.
#[derive(Clone, Debug, PartialEq, Eq)]
pub enum StructFields {
    /// Named fields, each with whether it is public.
    Named(Vec<(String, bool)>),
    Unnamed,
    Unit,
}

/// Why bindings cannot be derived for a struct.
#[derive(Clone, Copy, Debug, PartialEq, Eq, Structural)]
pub enum StructError {
    /// Tuple structs are not supported.
    TupleStruct,
    /// Unit structs are not supported.
    UnitStruct,
}

/// The public fields of a list of named fields, in order.
pub open spec fn public_fields(fs: Seq<(String, bool)>) -> Seq<Seq<char>>
    decreases fs.len(),
{
    if fs.len() == 0 {
        Seq::empty()
    } else if fs.last().1 {
        public_fields(fs.drop_last()).push(fs.last().0@)
    } else {
        public_fields(fs.drop_last())
    }
}

/// The fields exposed to Lua with a getter and a setter: the public named
/// fields. Tuple structs and unit structs are refused.
pub fn exposed_fields(fields: &StructFields) -> (r: Result<Vec<String>, StructError>)
    ensures
        match *fields {
            StructFields::Named(fs) => r matches Ok(v) && names_view(v@) == public_fields(fs@),
            StructFields::Unnamed => r == Err::<Vec<String>, StructError>(StructError::TupleStruct),
            StructFields::Unit => r == Err::<Vec<String>, StructError>(StructError::UnitStruct),
        },
{
    match fields {
        StructFields::Named(fs) => {
            let mut out: Vec<String> = Vec::new();
            let mut i: usize = 0;
            while i < fs.len()
                invariant
                    i <= fs@.len(),
                    names_view(out@) == public_fields(fs@.subrange(0, i as int)),
                decreases fs.len() - i,
            {
                let ghost pre = fs@.subrange(0, i as int);
                let ghost next = fs@.subrange(0, i + 1);
                assert(next.drop_last() =~= pre);
                assert(next.last() == fs@[i as int]);
                if fs[i].1 {
                    let ghost before = out@;
                    out.push(fs[i].0.clone());
                    assert(names_view(out@) =~= names_view(before).push(fs@[i as int].0@));
                }
                i = i + 1;
            }
            assert(fs@.subrange(0, fs@.len() as int) =~= fs@);
            Ok(out)
        },
        StructFields::Unnamed => Err(StructError::TupleStruct),
        StructFields::Unit => Err(StructError::UnitStruct),
    }
}

// ---------------------------------------------------------------------
// What the derives generate

/// The kind of type a derive is applied to.
#[derive(Clone, Copy, Debug, PartialEq, Eq, Structural)]
pub enum DataKind {
    Struct,
    Enum,
    Union,
}

/// Why a derive refuses a type.
#[derive(Clone, Copy, Debug, PartialEq, Eq, Structural)]
pub enum DeriveRefusal {
    /// `LuaIntegration` on an enum.
    EnumNeedsLuaKind,
    /// `LuaKind` on a struct.
    StructNeedsLuaIntegration,
    /// `LuaIntegration` on a union.
    UnionForIntegration,
    /// `LuaKind` on a union.
    UnionForKind,
}

/// The message reported for a refusal.
pub open spec fn refusal_message(r: DeriveRefusal) -> Seq<char> {
    match r {
        DeriveRefusal::EnumNeedsLuaKind => "LuaIntegration does not support enums. Use LuaKind instead."@,
        DeriveRefusal::StructNeedsLuaIntegration => "LuaKind is only for enums. Use LuaIntegration for structs."@,
        DeriveRefusal::UnionForIntegration => "LuaIntegration does not support unions"@,
        DeriveRefusal::UnionForKind => "LuaKind does not support unions"@,
    }
}

impl DeriveRefusal {
    /// The message reported to the user.
    pub fn message(&self) -> (r: &'static str)
        ensures
            r@ == refusal_message(*self),
    {
        match self {
            DeriveRefusal::EnumNeedsLuaKind => "LuaIntegration does not support enums. Use LuaKind instead.",
            DeriveRefusal::StructNeedsLuaIntegration => "LuaKind is only for enums. Use LuaIntegration for structs.",
            DeriveRefusal::UnionForIntegration => "LuaIntegration does not support unions",
            DeriveRefusal::UnionForKind => "LuaKind does not support unions",
        }
    }
}

/// Whether `LuaIntegration` applies: to structs only.
pub fn check_lua_integration(kind: DataKind) -> (r: Result<(), DeriveRefusal>)
    ensures
        kind == DataKind::Struct ==> r is Ok,
        kind == DataKind::Enum ==> r == Err::<(), DeriveRefusal>(DeriveRefusal::EnumNeedsLuaKind),
        kind == DataKind::Union ==> r == Err::<(), DeriveRefusal>(DeriveRefusal::UnionForIntegration),
{
    match kind {
        DataKind::Struct => Ok(()),
        DataKind::Enum => Err(DeriveRefusal::EnumNeedsLuaKind),
        DataKind::Union => Err(DeriveRefusal::UnionForIntegration),
    }
}

/// Whether `LuaKind` applies: to enums only.
pub fn check_lua_kind(kind: DataKind) -> (r: Result<(), DeriveRefusal>)
    ensures
        kind == DataKind::Enum ==> r is Ok,
        kind == DataKind::Struct ==> r == Err::<(), DeriveRefusal>(DeriveRefusal::StructNeedsLuaIntegration),
        kind == DataKind::Union ==> r == Err::<(), DeriveRefusal>(DeriveRefusal::UnionForKind),
{
    match kind {
        DataKind::Enum => Ok(()),
        DataKind::Struct => Err(DeriveRefusal::StructNeedsLuaIntegration),
        DataKind::Union => Err(DeriveRefusal::UnionForKind),
    }
}

/// A metamethod or function added to a type's Lua bindings.
#[derive(Clone, Copy, Debug, PartialEq, Eq, Structural)]
pub enum LuaMethod {
    /// `tostring`, as JSON.
    ToString,
    /// The `from_json` constructor.
    FromJson,
    /// The `==` metamethod.
    Eq,
}

/// The metamethods of a struct: JSON conversion when `serde` is set, then
/// equality when `Eq` is set.
pub open spec fn struct_methods_spec(serde: bool, eq: bool) -> Seq<LuaMethod> {
    (if serde { seq![LuaMethod::ToString, LuaMethod::FromJson] } else { Seq::empty() }) + (if eq {
        seq![LuaMethod::Eq]
    } else {
        Seq::empty()
    })
}

/// The metamethods generated for a struct, as [`struct_methods_spec`].
pub fn struct_meta_methods(attrs: &ContainerAttrs) -> (r: Vec<LuaMethod>)
    ensures
        r@ == struct_methods_spec(attrs.serde, attrs.eq),
{
    let mut out: Vec<LuaMethod> = Vec::new();
    if attrs.serde {
        out.push(LuaMethod::ToString);
        out.push(LuaMethod::FromJson);
    }
    if attrs.eq {
        out.push(LuaMethod::Eq);
    }
    assert(out@ =~= struct_methods_spec(attrs.serde, attrs.eq));
    out
}

/// The metamethods generated for an enum: equality always, then JSON
/// conversion when `serde` is set (the `Eq` option changes nothing).
pub fn enum_meta_methods(attrs: &ContainerAttrs) -> (r: Vec<LuaMethod>)
    ensures
        r@ == seq![LuaMethod::Eq] + struct_methods_spec(attrs.serde, false),
{
    let mut out: Vec<LuaMethod> = Vec::new();
    out.push(LuaMethod::Eq);
    if attrs.serde {
        out.push(LuaMethod::ToString);
        out.push(LuaMethod::FromJson);
    }
    assert(out@ =~= seq![LuaMethod::Eq] + struct_methods_spec(attrs.serde, false));
    out
}

/// The right-hand side of `==` with an enum value in Lua.
#[derive(Clone, Debug, PartialEq, Eq)]
pub enum LuaOperand {
    /// A Lua string.
    Text(String),
    /// A value of the same enum, by the position of its variant.
    SameEnum(usize),
    /// Anything else.
    Other,
}

/// What the generated `==` gives for a value of variant `this` (by
/// position) of an enum whose variants are called `lua_names` in Lua: a
/// string equals a unit-only enum's value when it is the variant's name;
/// two values of the enum are equal when their variants are.
pub fn lua_enum_eq(this: usize, other: &LuaOperand, lua_names: &Vec<String>, unit_enum: bool) -> (r:
    bool)
    requires
        this < lua_names@.len(),
    ensures
        r == match *other {
            LuaOperand::Text(s) => unit_enum && s@ == lua_names@[this as int]@,
            LuaOperand::SameEnum(k) => k == this,
            LuaOperand::Other => false,
        },
{
    match other {
        LuaOperand::Text(s) => unit_enum && str_eq(s.as_str(), lua_names[this].as_str()),
        LuaOperand::SameEnum(k) => *k == this,
        LuaOperand::Other => false,
    }
}

/// The `Eq` option alone decides the equality metamethod of a struct, and
/// the `serde` option alone decides its JSON conversions; nothing else is
/// generated. An enum always gets equality, and JSON conversions exactly
/// when `serde` is set.
pub proof fn law_struct_meta_methods(serde: bool, eq: bool)
    ensures
        struct_methods_spec(serde, eq).contains(LuaMethod::Eq) == eq,
        struct_methods_spec(serde, eq).contains(LuaMethod::ToString) == serde,
        struct_methods_spec(serde, eq).contains(LuaMethod::FromJson) == serde,
        struct_methods_spec(serde, eq).len() == (if serde { 2int } else { 0int }) + (if eq { 1int } else { 0int }),
        (seq![LuaMethod::Eq] + struct_methods_spec(serde, false)).contains(LuaMethod::Eq),
        (seq![LuaMethod::Eq] + struct_methods_spec(serde, false)).contains(LuaMethod::ToString) == serde,
        (seq![LuaMethod::Eq] + struct_methods_spec(serde, false)).contains(LuaMethod::FromJson) == serde,
{
    let m = struct_methods_spec(serde, eq);
    let e = seq![LuaMethod::Eq] + struct_methods_spec(serde, false);
    if serde {
        assert(m[0] == LuaMethod::ToString);
        assert(m[1] == LuaMethod::FromJson);
        assert(e[1] == LuaMethod::ToString);
        assert(e[2] == LuaMethod::FromJson);
    }
    if eq {
        assert(m[m.len() - 1] == LuaMethod::Eq);
    }
    assert(e[0] == LuaMethod::Eq);
    assert(!serde ==> e =~= seq![LuaMethod::Eq]);
}

} // verus!
