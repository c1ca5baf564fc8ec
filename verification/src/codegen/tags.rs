//! Runtime type tags: which tag a value provably carries, and where the tag
//! of one that carries it only at run time can be found.
use vstd::prelude::*;
use crate::ast::{BinaryOperator, Expr, ObjectProperty, Type, UnaryOperator, VarType};
use crate::codegen::expr::plain_arithmetic;
use crate::codegen::{
    ClauseTag, CodeGenerator, RuntimeTagSource, ShadowTagLoc, TagInfo, TAG_BOOLEAN, TAG_FLOAT,
    TAG_INTEGER, TAG_LIST, TAG_MAP, TAG_NOTHING, TAG_STRING,
};
use crate::names::NameMap;
use crate::text::{cat2, cat3, cat4, dec_int, dec_nat, i64_text, u64_text};
use crate::codegen::{indented, label_text, lines_view, next_count};

verus! {

/// The slot tag a storage class carries, where it has a single one.
pub open spec fn vartype_tag(vt: VarType) -> Option<u8> {
    match vt {
        VarType::Integer => Some(TAG_INTEGER),
        VarType::Float => Some(TAG_FLOAT),
        VarType::Text | VarType::Buffer => Some(TAG_STRING),
        VarType::Boolean => Some(TAG_BOOLEAN),
        VarType::List => Some(TAG_LIST),
        VarType::Dict => Some(TAG_MAP),
        _ => None,
    }
}

/// The slot tag a value of a declared type carries.
pub open spec fn type_tag(t: Type) -> Option<u8> {
    match t {
        Type::Integer => Some(TAG_INTEGER),
        Type::Float => Some(TAG_FLOAT),
        Type::Text => Some(TAG_STRING),
        Type::Boolean => Some(TAG_BOOLEAN),
        Type::Buffer => Some(TAG_STRING),
        Type::List(_) => Some(TAG_LIST),
        Type::Dict(_) => Some(TAG_MAP),
        _ => None,
    }
}

/// The `movzx` source operand of a shadow tag, or none for r11.
pub open spec fn source_operand(s: RuntimeTagSource) -> Option<Seq<char>> {
    match s {
        RuntimeTagSource::ShadowSlot(off) => Some("[rbp-"@ + dec_int(off as int) + "]"@),
        RuntimeTagSource::ShadowSlotGlobal(label) => Some("[rel "@ + label@ + "]"@),
        RuntimeTagSource::R11 => None,
    }
}

/// The operand of a shadow tag location.
pub open spec fn loc_operand(l: ShadowTagLoc) -> Seq<char> {
    match l {
        ShadowTagLoc::Local(off) => "[rbp-"@ + dec_int(off as int) + "]"@,
        ShadowTagLoc::Global(label) => "[rel "@ + label@ + "]"@,
    }
}

/// Whether a tag is only known at run time.
pub open spec fn is_runtime(t: Option<ClauseTag>) -> bool {
    t matches Some(ClauseTag::Runtime(_))
}

/// Whether a `treating` clause with these three tags dispatches on runtime
/// tags: all three have one, and at least one is only known at run time.
pub open spec fn dispatch_of(s: Option<ClauseTag>, m: Option<ClauseTag>, r: Option<ClauseTag>) -> bool {
    s is Some && m is Some && r is Some && (is_runtime(s) || is_runtime(m) || is_runtime(r))
}

pub fn vartype_to_tag(vt: VarType) -> (r: Option<u8>)
    ensures
        r == vartype_tag(vt),
{
    match vt {
        VarType::Integer => Some(TAG_INTEGER),
        VarType::Float => Some(TAG_FLOAT),
        VarType::Text | VarType::Buffer => Some(TAG_STRING),
        VarType::Boolean => Some(TAG_BOOLEAN),
        VarType::List => Some(TAG_LIST),
        VarType::Dict => Some(TAG_MAP),
        _ => None,
    }
}

pub fn type_to_tag(t: &Type) -> (r: Option<u8>)
    ensures
        r == type_tag(*t),
{
    match t {
        Type::Integer => Some(TAG_INTEGER),
        Type::Float => Some(TAG_FLOAT),
        Type::Text => Some(TAG_STRING),
        Type::Boolean => Some(TAG_BOOLEAN),
        Type::Buffer => Some(TAG_STRING),
        Type::List(_) => Some(TAG_LIST),
        Type::Dict(_) => Some(TAG_MAP),
        _ => None,
    }
}

impl RuntimeTagSource {
    /// The `movzx r11, byte <operand>` source, or none when the tag is
    /// already in r11.
    pub fn shadow_operand(&self) -> (r: Option<String>)
        ensures
            match source_operand(*self) {
                Some(o) => r matches Some(x) && x@ == o,
                None => r is None,
            },
    {
        match self {
            RuntimeTagSource::ShadowSlot(off) => {
                let o = i64_text(*off);
                Some(cat3("[rbp-", o.as_str(), "]"))
            },
            RuntimeTagSource::ShadowSlotGlobal(label) => Some(cat3("[rel ", label.as_str(), "]")),
            RuntimeTagSource::R11 => None,
        }
    }

    pub fn copy(&self) -> (r: RuntimeTagSource)
        ensures
            r == *self,
    {
        match self {
            RuntimeTagSource::ShadowSlot(off) => RuntimeTagSource::ShadowSlot(*off),
            RuntimeTagSource::ShadowSlotGlobal(label) => RuntimeTagSource::ShadowSlotGlobal(label.clone()),
            RuntimeTagSource::R11 => RuntimeTagSource::R11,
        }
    }
}

impl ShadowTagLoc {
    pub fn operand(&self) -> (r: String)
        ensures
            r@ == loc_operand(*self),
    {
        match self {
            ShadowTagLoc::Local(off) => {
                let o = i64_text(*off);
                cat3("[rbp-", o.as_str(), "]")
            },
            ShadowTagLoc::Global(label) => cat3("[rel ", label.as_str(), "]"),
        }
    }
}

impl CodeGenerator {
    /// Where the shadow tag of the `value` variable `n` is.
    pub open spec fn mixed_slot_named(&self, n: Seq<char>) -> Option<ShadowTagLoc> {
        if self.tracked_type(n) == Some(VarType::Mixed) {
            if self.mixed_tag_slots@.contains_key(n) {
                Some(ShadowTagLoc::Local(self.mixed_tag_slots@[n]))
            } else if self.global_value_tag_labels@.contains_key(n) {
                Some(ShadowTagLoc::Global(self.global_value_tag_labels@[n]))
            } else {
                None
            }
        } else {
            None
        }
    }

    /// Where a `value` variable's shadow tag is, for a reference to one.
    pub open spec fn mixed_slot(&self, e: Expr) -> Option<ShadowTagLoc> {
        match e {
            Expr::Identifier(n) | Expr::StringLit(n) => self.mixed_slot_named(n@),
            _ => None,
        }
    }

    /// Whether generating `e` leaves its runtime tag in r11.
    pub open spec fn leaves_r11(&self, e: Expr) -> bool
        decreases e, 2int,
    {
        match e {
            Expr::FunctionCall { name, .. } => self.call_return(name@) == Some(VarType::Mixed),
            Expr::Identifier(name) => if self.variables@.contains_key(name@) || self.global_var_labels@.contains_key(
                name@,
            ) {
                false
            } else {
                self.zero_arg_return(name@) == Some(VarType::Mixed)
            },
            Expr::ElementAccess { list, .. } => self.list_mixed(*list),
            Expr::ListAccess { list, .. } => self.list_mixed(*list),
            Expr::MapAccess { .. } => true,
            Expr::PropertyAccess { object, property } => if property == ObjectProperty::First || property
                == ObjectProperty::Last {
                self.mixed_lists@.contains(object@) || self.element_type(object@) == Some(VarType::Mixed)
            } else {
                false
            },
            Expr::TreatingAs { value, match_value, replacement } => dispatch_of(
                self.subject_tag(*value),
                self.clause_tag(*match_value),
                self.clause_tag(*replacement),
            ),
            _ => false,
        }
    }

    /// Where `e`'s runtime tag is right after it is generated, if it has
    /// one at all.
    pub open spec fn runtime_source(&self, e: Expr) -> Option<RuntimeTagSource>
        decreases e, 3int,
    {
        match self.mixed_slot(e) {
            Some(ShadowTagLoc::Local(off)) => Some(RuntimeTagSource::ShadowSlot(off)),
            Some(ShadowTagLoc::Global(label)) => Some(RuntimeTagSource::ShadowSlotGlobal(label)),
            None => if self.leaves_r11(e) {
                Some(RuntimeTagSource::R11)
            } else {
                None
            },
        }
    }

    /// The tag a value written into a slot provably carries at emit time.
    pub open spec fn emit_tag(&self, e: Expr) -> Option<u8>
        decreases e, 3int,
    {
        match e {
            Expr::IntegerLit(_) => Some(TAG_INTEGER),
            Expr::FloatLit(_) => Some(TAG_FLOAT),
            Expr::BoolLit(_) => Some(TAG_BOOLEAN),
            Expr::NothingLit => Some(TAG_NOTHING),
            Expr::ListLit { .. } => Some(TAG_LIST),
            Expr::MapLit { .. } => Some(TAG_MAP),
            Expr::TypeCheck { .. } => Some(TAG_BOOLEAN),
            Expr::UnaryOp { op: UnaryOperator::Not, .. } => Some(TAG_BOOLEAN),
            Expr::StringLit(_) => Some(TAG_STRING),
            Expr::Identifier(name) => if self.unprovable_scalars@.contains(name@) && self.tracked_type(name@)
                != Some(VarType::List) {
                None
            } else {
                match self.tracked_type(name@) {
                    Some(VarType::Integer) => Some(TAG_INTEGER),
                    Some(VarType::Float) => Some(TAG_FLOAT),
                    Some(VarType::Boolean) => Some(TAG_BOOLEAN),
                    Some(VarType::Text) | Some(VarType::Buffer) => Some(TAG_STRING),
                    Some(VarType::List) => Some(TAG_LIST),
                    Some(VarType::Dict) => Some(TAG_MAP),
                    Some(VarType::Mixed) => None,
                    _ => match self.zero_arg_return(name@) {
                        Some(vt) => vartype_tag(vt),
                        None => Some(TAG_INTEGER),
                    },
                }
            },
            Expr::TreatingAs { value, match_value, replacement } => if dispatch_of(
                self.subject_tag(*value),
                self.clause_tag(*match_value),
                self.clause_tag(*replacement),
            ) {
                None
            } else {
                match self.inferred(e) {
                    Some(vt) => vartype_tag(vt),
                    None => None,
                }
            },
            _ => match self.inferred(e) {
                Some(vt) => vartype_tag(vt),
                None => None,
            },
        }
    }

    /// The tag of a `treating` clause's subject: its runtime tag first.
    pub open spec fn subject_tag(&self, e: Expr) -> Option<ClauseTag>
        decreases e, 4int,
    {
        match self.runtime_source(e) {
            Some(src) => Some(ClauseTag::Runtime(src)),
            None => if (e matches Expr::Identifier(n) && self.tracked_type(n@) == Some(VarType::Buffer)) {
                None
            } else {
                match self.emit_tag(e) {
                    Some(t) => Some(ClauseTag::Static(t)),
                    None => None,
                }
            },
        }
    }

    /// The tag of a `treating` clause's match or replacement: its emit-time
    /// tag first.
    pub open spec fn clause_tag(&self, e: Expr) -> Option<ClauseTag>
        decreases e, 4int,
    {
        match self.emit_tag(e) {
            Some(t) => Some(ClauseTag::Static(t)),
            None => match self.runtime_source(e) {
                Some(src) => Some(ClauseTag::Runtime(src)),
                None => None,
            },
        }
    }

    fn shadow_slot_named(&self, name: &str) -> (r: Option<ShadowTagLoc>)
        ensures
            r == self.mixed_slot_named(name@),
    {
        let is_mixed = match self.variable_types.get(name) {
            Some(VarType::Mixed) => true,
            _ => false,
        };
        if is_mixed {
            match self.mixed_tag_slots.get(name) {
                Some(off) => Some(ShadowTagLoc::Local(*off)),
                None => match self.global_value_tag_labels.get(name) {
                    Some(label) => Some(ShadowTagLoc::Global(label.clone())),
                    None => None,
                },
            }
        } else {
            None
        }
    }

    /// Where a `value` variable's shadow tag is, for a reference to one.
    pub fn mixed_element_tag_slot(&self, e: &Expr) -> (r: Option<ShadowTagLoc>)
        ensures
            r == self.mixed_slot(*e),
    {
        match e {
            Expr::Identifier(name) | Expr::StringLit(name) => self.shadow_slot_named(name.as_str()),
            _ => None,
        }
    }

    /// Where a `{name}` hole's runtime tag is, for a name of type `Mixed`.
    pub fn mixed_value_tag_location(&self, name: &str, value_type: Option<VarType>) -> (r: Option<String>)
        ensures
            value_type != Some(VarType::Mixed) ==> r is None,
            value_type == Some(VarType::Mixed) ==> match self.mixed_slot_named(name@) {
                Some(loc) => r matches Some(x) && x@ == loc_operand(loc),
                None => r is None,
            },
    {
        if value_type != Some(VarType::Mixed) {
            return None;
        }
        match self.shadow_slot_named(name) {
            Some(loc) => Some(loc.operand()),
            None => None,
        }
    }

    /// Whether generating `e` leaves its runtime tag in r11: a call of a
    /// `value`-returning function, a fresh read of a mixed list's element
    /// or a map's value, or a `treating` clause that dispatches on tags.
    pub fn expr_leaves_tag_in_r11(&self, e: &Expr) -> (r: bool)
        ensures
            r == self.leaves_r11(*e),
        decreases e, 2int,
    {
        match e {
            Expr::FunctionCall { name, .. } => {
                let label = self.resolved_call_label(name.as_str());
                match self.function_return_types.get(label.as_str()) {
                    Some(VarType::Mixed) => true,
                    _ => false,
                }
            },
            Expr::Identifier(name) => {
                if self.variables.contains_key(name.as_str()) || self.global_var_labels.contains_key(name.as_str()) {
                    false
                } else {
                    self.zero_arg_func_return_type(name.as_str()) == Some(VarType::Mixed)
                }
            },
            Expr::ElementAccess { list, .. } | Expr::ListAccess { list, .. } => self.list_expr_is_mixed(list),
            Expr::MapAccess { .. } => true,
            Expr::PropertyAccess { object, property } => {
                match property {
                    ObjectProperty::First | ObjectProperty::Last => {
                        self.mixed_lists.contains(object.as_str()) || match self.list_element_types.get(
                            object.as_str(),
                        ) {
                            Some(VarType::Mixed) => true,
                            _ => false,
                        }
                    },
                    _ => false,
                }
            },
            Expr::TreatingAs { .. } => self.clause_dispatches(e),
            _ => false,
        }
    }

    /// Where `e`'s runtime tag is right after it is generated: a `value`'s
    /// shadow slot, or r11.
    pub fn runtime_tag_source(&self, e: &Expr) -> (r: Option<RuntimeTagSource>)
        ensures
            r == self.runtime_source(*e),
        decreases e, 3int,
    {
        match self.mixed_element_tag_slot(e) {
            Some(ShadowTagLoc::Local(off)) => Some(RuntimeTagSource::ShadowSlot(off)),
            Some(ShadowTagLoc::Global(label)) => Some(RuntimeTagSource::ShadowSlotGlobal(label)),
            None => {
                if self.expr_leaves_tag_in_r11(e) {
                    Some(RuntimeTagSource::R11)
                } else {
                    None
                }
            },
        }
    }

    /// Whether `e`'s value carries a tag only known at run time.
    pub fn expr_has_runtime_only_tag(&self, e: &Expr) -> (r: bool)
        ensures
            r == self.runtime_source(*e) is Some,
    {
        self.runtime_tag_source(e).is_some()
    }

    /// The tag a value written into a slot provably carries at emit time.
    pub fn emit_time_expr_tag(&self, e: &Expr) -> (r: Option<u8>)
        ensures
            r == self.emit_tag(*e),
        decreases e, 3int,
    {
        match e {
            Expr::IntegerLit(_) => Some(TAG_INTEGER),
            Expr::FloatLit(_) => Some(TAG_FLOAT),
            Expr::BoolLit(_) => Some(TAG_BOOLEAN),
            Expr::NothingLit => Some(TAG_NOTHING),
            Expr::ListLit { .. } => Some(TAG_LIST),
            Expr::MapLit { .. } => Some(TAG_MAP),
            Expr::TypeCheck { .. } => Some(TAG_BOOLEAN),
            Expr::UnaryOp { op: UnaryOperator::Not, .. } => Some(TAG_BOOLEAN),
            Expr::StringLit(_) => Some(TAG_STRING),
            Expr::Identifier(name) => {
                let known = match self.variable_types.get(name.as_str()) {
                    Some(t) => Some(*t),
                    None => None,
                };
                if self.unprovable_scalars.contains(name.as_str()) && known != Some(VarType::List) {
                    return None;
                }
                match known {
                    Some(VarType::Integer) => Some(TAG_INTEGER),
                    Some(VarType::Float) => Some(TAG_FLOAT),
                    Some(VarType::Boolean) => Some(TAG_BOOLEAN),
                    Some(VarType::Text) | Some(VarType::Buffer) => Some(TAG_STRING),
                    Some(VarType::List) => Some(TAG_LIST),
                    Some(VarType::Dict) => Some(TAG_MAP),
                    Some(VarType::Mixed) => None,
                    _ => match self.zero_arg_func_return_type(name.as_str()) {
                        Some(vt) => vartype_to_tag(vt),
                        None => Some(TAG_INTEGER),
                    },
                }
            },
            Expr::TreatingAs { .. } => {
                if self.clause_dispatches(e) {
                    None
                } else {
                    match self.infer_expr_type(e) {
                        Some(vt) => vartype_to_tag(vt),
                        None => None,
                    }
                }
            },
            _ => match self.infer_expr_type(e) {
                Some(vt) => vartype_to_tag(vt),
                None => None,
            },
        }
    }

    /// The tags of a `treating` clause's three operands decide whether it
    /// dispatches at run time.
    fn tags_dispatch(subject: Option<ClauseTag>, matched: Option<ClauseTag>, replaced: Option<ClauseTag>) -> (r: bool)
        ensures
            r == dispatch_of(subject, matched, replaced),
    {
        match (subject, matched, replaced) {
            (Some(s), Some(m), Some(rp)) => {
                let s_runtime = match s {
                    ClauseTag::Runtime(_) => true,
                    _ => false,
                };
                let m_runtime = match m {
                    ClauseTag::Runtime(_) => true,
                    _ => false,
                };
                let r_runtime = match rp {
                    ClauseTag::Runtime(_) => true,
                    _ => false,
                };
                s_runtime || m_runtime || r_runtime
            },
            _ => false,
        }
    }

    /// Whether the `treating` clause `e` dispatches on runtime tags.
    fn clause_dispatches(&self, e: &Expr) -> (r: bool)
        requires
            *e is TreatingAs,
        ensures
            match *e {
                Expr::TreatingAs { value, match_value, replacement } => r == dispatch_of(
                    self.subject_tag(*value),
                    self.clause_tag(*match_value),
                    self.clause_tag(*replacement),
                ),
                _ => true,
            },
        decreases e, 1int,
    {
        match e {
            Expr::TreatingAs { value, match_value, replacement } => {
                let subject = self.treating_subject_tag(value);
                let matched = self.treating_clause_tag(match_value);
                let replaced = self.treating_clause_tag(replacement);
                Self::tags_dispatch(subject, matched, replaced)
            },
            _ => false,
        }
    }

    /// Whether a `treating` clause must dispatch on runtime tags: every one
    /// of its three operands has a tag, and one is only known at run time.
    pub fn treating_dispatches_on_runtime_tag(&self, value: &Expr, match_value: &Expr, replacement: &Expr) -> (r: bool)
        ensures
            r == dispatch_of(self.subject_tag(*value), self.clause_tag(*match_value), self.clause_tag(*replacement)),
    {
        let subject = self.treating_subject_tag(value);
        let matched = self.treating_clause_tag(match_value);
        let replaced = self.treating_clause_tag(replacement);
        Self::tags_dispatch(subject, matched, replaced)
    }

    /// The tag of a `treating` clause's match or replacement.
    pub fn treating_clause_tag(&self, e: &Expr) -> (r: Option<ClauseTag>)
        ensures
            r == self.clause_tag(*e),
        decreases e, 4int,
    {
        match self.emit_time_expr_tag(e) {
            Some(tag) => Some(ClauseTag::Static(tag)),
            None => match self.runtime_tag_source(e) {
                Some(src) => Some(ClauseTag::Runtime(src)),
                None => None,
            },
        }
    }

    /// The tag of a `treating` clause's subject.
    pub fn treating_subject_tag(&self, e: &Expr) -> (r: Option<ClauseTag>)
        ensures
            r == self.subject_tag(*e),
        decreases e, 4int,
    {
        if let Some(src) = self.runtime_tag_source(e) {
            return Some(ClauseTag::Runtime(src));
        }
        if let Expr::Identifier(name) = e {
            match self.variable_types.get(name.as_str()) {
                Some(VarType::Buffer) => {
                    return None;
                },
                _ => {},
            }
        }
        match self.emit_time_expr_tag(e) {
            Some(t) => Some(ClauseTag::Static(t)),
            None => None,
        }
    }

    /// The tag a type predicate reads at emit time: a scalar the pre-scan
    /// could not prove still answers by its declared type.
    pub open spec fn predicate_tag(&self, e: Expr) -> Option<u8> {
        match e {
            Expr::StringLit(name) | Expr::Identifier(name) => if self.unprovable_scalars@.contains(name@) {
                match self.tracked_type(name@) {
                    Some(vt) => vartype_tag(vt),
                    None => None,
                }
            } else {
                self.emit_tag(e)
            },
            _ => self.emit_tag(e),
        }
    }

    /// The tag a type predicate reads: a scalar the pre-scan could not
    /// prove still answers by its declared type.
    pub fn predicate_static_tag(&self, e: &Expr) -> (r: Option<u8>)
        ensures
            r == self.predicate_tag(*e),
    {
        match e {
            Expr::StringLit(name) | Expr::Identifier(name) => {
                if self.unprovable_scalars.contains(name.as_str()) {
                    return match self.variable_types.get(name.as_str()) {
                        Some(vt) => vartype_to_tag(*vt),
                        None => None,
                    };
                }
            },
            _ => {},
        }
        self.emit_time_expr_tag(e)
    }

    /// The proven tag of reading one element of the list `name`.
    pub open spec fn list_read(&self, name: Seq<char>, seen: Map<Seq<char>, u8>) -> TagInfo {
        if self.mixed_lists@.contains(name) {
            TagInfo::Unknowable
        } else if seen.contains_key(name) {
            TagInfo::Known(seen[name])
        } else {
            TagInfo::Unknowable
        }
    }

    /// The tag the pre-scan can prove `e` carries, from what is provable
    /// without emitting code: literals, tracked scalars, declared returns,
    /// casts, provable operators, and reads of homogeneous lists.
    pub open spec fn prescan(&self, e: Expr, env: Map<Seq<char>, TagInfo>, seen: Map<Seq<char>, u8>) -> TagInfo
        decreases e,
    {
        match e {
            Expr::IntegerLit(_) => TagInfo::Known(TAG_INTEGER),
            Expr::FloatLit(_) => TagInfo::Known(TAG_FLOAT),
            Expr::BoolLit(_) => TagInfo::Known(TAG_BOOLEAN),
            Expr::NothingLit => TagInfo::Known(TAG_NOTHING),
            Expr::ListLit { .. } => TagInfo::Known(TAG_LIST),
            Expr::MapLit { .. } => TagInfo::Known(TAG_MAP),
            Expr::TypeCheck { .. } => TagInfo::Known(TAG_BOOLEAN),
            Expr::FormatString { .. } => TagInfo::Known(TAG_STRING),
            Expr::StringLit(s) => if env.contains_key(s@) {
                env[s@]
            } else {
                TagInfo::Known(TAG_STRING)
            },
            Expr::Identifier(name) => if env.contains_key(name@) {
                env[name@]
            } else {
                TagInfo::Unknowable
            },
            Expr::FunctionCall { .. } | Expr::Cast { .. } => match self.inferred(e) {
                Some(vt) => match vartype_tag(vt) {
                    Some(t) => TagInfo::Known(t),
                    None => TagInfo::Unknowable,
                },
                None => TagInfo::Unknowable,
            },
            Expr::UnaryOp { op, operand } => if op == UnaryOperator::Not {
                TagInfo::Known(TAG_BOOLEAN)
            } else {
                self.prescan(*operand, env, seen)
            },
            Expr::BinaryOp { left, op, right } => match (self.prescan(*left, env, seen), self.prescan(*right, env, seen)) {
                (TagInfo::Known(lt), TagInfo::Known(rt)) => if plain_arithmetic(op) && (lt == TAG_FLOAT || rt
                    == TAG_FLOAT) {
                    TagInfo::Known(TAG_FLOAT)
                } else {
                    TagInfo::Known(TAG_INTEGER)
                },
                _ => TagInfo::Unknowable,
            },
            Expr::PropertyAccess { object, property } => if property == ObjectProperty::First || property
                == ObjectProperty::Last {
                self.list_read(object@, seen)
            } else if property == ObjectProperty::Size || property == ObjectProperty::Capacity {
                TagInfo::Known(TAG_INTEGER)
            } else {
                TagInfo::Unknowable
            },
            Expr::ElementAccess { list, .. } => match *list {
                Expr::Identifier(n) | Expr::StringLit(n) => self.list_read(n@, seen),
                _ => TagInfo::Unknowable,
            },
            _ => TagInfo::Unknowable,
        }
    }

    /// The proven tag of reading one element of the list `name`.
    pub fn prescan_list_read_tag(&self, name: &str, list_seen_tags: &NameMap<u8>) -> (r: TagInfo)
        ensures
            r == self.list_read(name@, list_seen_tags@),
    {
        if self.mixed_lists.contains(name) {
            return TagInfo::Unknowable;
        }
        match list_seen_tags.get(name) {
            Some(t) => TagInfo::Known(*t),
            None => TagInfo::Unknowable,
        }
    }

    /// The tag the pre-scan can prove `e` carries.
    pub fn prescan_expr_tag(&self, e: &Expr, env: &NameMap<TagInfo>, list_seen_tags: &NameMap<u8>) -> (r: TagInfo)
        ensures
            r == self.prescan(*e, env@, list_seen_tags@),
        decreases e,
    {
        match e {
            Expr::IntegerLit(_) => TagInfo::Known(TAG_INTEGER),
            Expr::FloatLit(_) => TagInfo::Known(TAG_FLOAT),
            Expr::BoolLit(_) => TagInfo::Known(TAG_BOOLEAN),
            Expr::NothingLit => TagInfo::Known(TAG_NOTHING),
            Expr::ListLit { .. } => TagInfo::Known(TAG_LIST),
            Expr::MapLit { .. } => TagInfo::Known(TAG_MAP),
            Expr::TypeCheck { .. } => TagInfo::Known(TAG_BOOLEAN),
            Expr::FormatString { .. } => TagInfo::Known(TAG_STRING),
            Expr::StringLit(s) => match env.get(s.as_str()) {
                Some(info) => *info,
                None => TagInfo::Known(TAG_STRING),
            },
            Expr::Identifier(name) => match env.get(name.as_str()) {
                Some(info) => *info,
                None => TagInfo::Unknowable,
            },
            Expr::FunctionCall { .. } | Expr::Cast { .. } => match self.infer_expr_type(e) {
                Some(vt) => match vartype_to_tag(vt) {
                    Some(t) => TagInfo::Known(t),
                    None => TagInfo::Unknowable,
                },
                None => TagInfo::Unknowable,
            },
            Expr::UnaryOp { op, operand } => {
                match op {
                    UnaryOperator::Not => TagInfo::Known(TAG_BOOLEAN),
                    _ => self.prescan_expr_tag(operand, env, list_seen_tags),
                }
            },
            Expr::BinaryOp { left, op, right } => {
                let lt = self.prescan_expr_tag(left, env, list_seen_tags);
                let rt = self.prescan_expr_tag(right, env, list_seen_tags);
                match (lt, rt) {
                    (TagInfo::Known(l), TagInfo::Known(r)) => {
                        let arithmetic = match op {
                            BinaryOperator::Add | BinaryOperator::Subtract | BinaryOperator::Multiply
                            | BinaryOperator::Divide | BinaryOperator::Modulo => true,
                            _ => false,
                        };
                        if arithmetic && (l == TAG_FLOAT || r == TAG_FLOAT) {
                            TagInfo::Known(TAG_FLOAT)
                        } else {
                            TagInfo::Known(TAG_INTEGER)
                        }
                    },
                    _ => TagInfo::Unknowable,
                }
            },
            Expr::PropertyAccess { object, property } => match property {
                ObjectProperty::First | ObjectProperty::Last => self.prescan_list_read_tag(
                    object.as_str(),
                    list_seen_tags,
                ),
                ObjectProperty::Size | ObjectProperty::Capacity => TagInfo::Known(TAG_INTEGER),
                _ => TagInfo::Unknowable,
            },
            Expr::ElementAccess { list, .. } => match &**list {
                Expr::Identifier(n) | Expr::StringLit(n) => self.prescan_list_read_tag(n.as_str(), list_seen_tags),
                _ => TagInfo::Unknowable,
            },
            _ => TagInfo::Unknowable,
        }
    }

    /// The proven tag of a `for each` loop variable, from its collection: a
    /// range gives numbers, the arguments texts, a list literal its single
    /// element tag, a homogeneous list variable its recorded tag.
    pub fn foreach_loop_var_tag(&self, collection: &Expr, env: &NameMap<TagInfo>, list_seen_tags: &NameMap<u8>) -> (r: TagInfo)
        ensures
            r == match *collection {
                Expr::Range { .. } => TagInfo::Known(TAG_INTEGER),
                Expr::ArgumentAll | Expr::ArgumentRaw => TagInfo::Known(TAG_STRING),
                Expr::ListLit { elements } => if elements@.len() > 0 && (self.prescan(elements@[0], env@, list_seen_tags@)
                    is Known) && forall|i: int| 0 <= i < elements@.len() ==> self.prescan(#[trigger] elements@[i], env@, list_seen_tags@)
                    == self.prescan(elements@[0], env@, list_seen_tags@) {
                    self.prescan(elements@[0], env@, list_seen_tags@)
                } else {
                    TagInfo::Unknowable
                },
                Expr::Identifier(n) | Expr::StringLit(n) => self.list_read(n@, list_seen_tags@),
                _ => TagInfo::Unknowable,
            },
    {
        match collection {
            Expr::Range { .. } => TagInfo::Known(TAG_INTEGER),
            Expr::ArgumentAll | Expr::ArgumentRaw => TagInfo::Known(TAG_STRING),
            Expr::ListLit { elements } => {
                if elements.len() == 0 {
                    return TagInfo::Unknowable;
                }
                let first = self.prescan_expr_tag(&elements[0], env, list_seen_tags);
                let t0 = match first {
                    TagInfo::Known(t) => t,
                    TagInfo::Unknowable => {
                        return TagInfo::Unknowable;
                    },
                };
                let mut all_same = true;
                let mut i: usize = 0;
                while i < elements.len()
                    invariant
                        0 < elements@.len(),
                        i <= elements@.len(),
                        first == self.prescan(elements@[0], env@, list_seen_tags@),
                        first == TagInfo::Known(t0),
                        all_same == forall|j: int| 0 <= j < i ==> self.prescan(#[trigger] elements@[j], env@, list_seen_tags@)
                            == first,
                    decreases elements@.len() - i,
                {
                    if self.prescan_expr_tag(&elements[i], env, list_seen_tags) != first {
                        all_same = false;
                    }
                    i = i + 1;
                }
                if all_same {
                    first
                } else {
                    TagInfo::Unknowable
                }
            },
            Expr::Identifier(name) | Expr::StringLit(name) => self.prescan_list_read_tag(name.as_str(), list_seen_tags),
            _ => TagInfo::Unknowable,
        }
    }
}

/// Logical negation is a boolean, and the pre-scan and the emit-time tag
/// agree on it whatever the operand.
pub proof fn law_not_is_boolean_in_both_tags(
    g: CodeGenerator,
    operand: Box<Expr>,
    env: Map<Seq<char>, TagInfo>,
    seen: Map<Seq<char>, u8>,
)
    ensures
        g.emit_tag(Expr::UnaryOp { op: UnaryOperator::Not, operand }) == Some(TAG_BOOLEAN),
        g.prescan(Expr::UnaryOp { op: UnaryOperator::Not, operand }, env, seen) == TagInfo::Known(TAG_BOOLEAN),
{
}

/// A text literal is tagged as text, even when its characters spell a
/// variable's name.
pub proof fn law_string_literal_tag(g: CodeGenerator, s: String)
    ensures
        g.emit_tag(Expr::StringLit(s)) == Some(TAG_STRING),
        g.clause_tag(Expr::StringLit(s)) == Some(ClauseTag::Static(TAG_STRING)),
{
}

/// `a` is a prefix of `b`.
pub open spec fn code_prefix(a: Seq<Seq<char>>, b: Seq<Seq<char>>) -> bool {
    a.len() <= b.len() && b.subrange(0, a.len() as int) == a
}

/// The line that loads `e`'s tag into r11, if one is needed.
pub open spec fn load_tag_lines(g: CodeGenerator, e: Expr) -> Seq<Seq<char>> {
    match g.emit_tag(e) {
        Some(t) => seq![indented("mov r11, "@ + dec_nat(t as nat) + "  ; value tag (static)"@)],
        None => match g.mixed_slot(e) {
            Some(loc) => seq![indented("movzx r11, byte "@ + loc_operand(loc) + "  ; value tag (shadow slot)"@)],
            None => if !g.leaves_r11(e) {
                seq![indented("mov r11, 0  ; value tag (integer default: no tag in r11)"@)]
            } else {
                Seq::empty()
            },
        },
    }
}

/// The first lines of a tag-dispatched scalar cast: the four-way jump on
/// r11, with labels taken from counts `c` on.
pub open spec fn cast_dispatch_lines(c: u64) -> Seq<Seq<char>> {
    let c1 = next_count(c);
    let c2 = next_count(c1);
    let c3 = next_count(c2);
    let c4 = next_count(c3);
    crate::codegen::cast::dispatch_lines(
        label_text("vr_int"@, c),
        label_text("vr_flt"@, c1),
        label_text("vr_str"@, c2),
        label_text("vr_bool"@, c3),
        label_text("vr_fail"@, c4),
    )
}

/// Whether a type is one of the four scalars a `value` can be cast to.
pub open spec fn is_scalar_target(t: Type) -> bool {
    t is Integer || t is Float || t is Text || t is Boolean
}

/// What a scalar type is called in a comment.
pub open spec fn scalar_noun(t: Type) -> Seq<char> {
    match t {
        Type::Integer => "number"@,
        Type::Float => "float"@,
        Type::Text => "text"@,
        _ => "boolean"@,
    }
}

/// The operand of a named variable's payload: its stack slot, else its
/// global label.
pub open spec fn payload_operand(g: CodeGenerator, n: Seq<char>) -> Option<Seq<char>> {
    if g.variables@.contains_key(n) {
        Some("[rbp-"@ + dec_int(g.variables@[n] as int) + "]"@)
    } else if g.global_var_labels@.contains_key(n) {
        Some("[rel "@ + g.global_var_labels@[n]@ + "]"@)
    } else {
        None
    }
}

/// The shape of the code of an in-place retype from `g0` to code `code`:
/// the comment and the payload load, the tag load of `id`, the cast's
/// dispatch, and at the end the cast's last label and the two stores.
pub open spec fn retype_shape(
    g0: CodeGenerator,
    code: Seq<Seq<char>>,
    id: Expr,
    name: Seq<char>,
    noun: Seq<char>,
    p: Seq<char>,
    tag_op: Seq<char>,
) -> bool {
    let head = g0.code() + seq![
        indented("; in-place retype of '"@ + name + "' to "@ + noun),
        indented("mov rax, "@ + p + "  ; value payload"@),
    ];
    let n = code.len();
    &&& code_prefix(head + load_tag_lines(g0, id) + cast_dispatch_lines(g0.label_counter), code)
    &&& n >= 3
    &&& code[n - 3] == label_text(
        "vr_done"@,
        next_count(next_count(next_count(next_count(next_count(next_count(g0.label_counter)))))),
    ) + ":"@
    &&& code[n - 2] == indented("mov "@ + p + ", rax  ; updated payload"@)
    &&& code[n - 1] == indented("mov byte "@ + tag_op + ", r11b  ; updated tag"@)
}

/// The two lines that report a retype that cannot be done.
pub open spec fn retype_refusal(why: Seq<char>) -> Seq<Seq<char>> {
    seq![indented(why), indented("SET_LAST_ERROR 1"@)]
}

impl CodeGenerator {
    /// Nothing but the code differs from `other`.
    pub open spec fn only_text_grew(&self, other: &CodeGenerator) -> bool {
        *self == (CodeGenerator { text: self.text, ..*other })
    }

    /// Load `expr`'s runtime tag into r11: its static tag, else its shadow
    /// slot, else (when nothing holds it and r11 does not either) the
    /// integer tag.
    pub fn emit_load_value_tag(&mut self, expr: &Expr)
        ensures
            final(self).code() == old(self).code() + load_tag_lines(*old(self), *expr),
            final(self).only_text_grew(old(self)),
    {
        let line = self.value_tag_line(expr);
        if let Some(l) = line {
            self.text.push(l);
        }
        proof {
            assert(self.code() =~= old(self).code() + load_tag_lines(*old(self), *expr));
        }
    }

    /// The line that loads `expr`'s tag into r11, if one is needed.
    fn value_tag_line(&self, expr: &Expr) -> (r: Option<String>)
        ensures
            match r {
                Some(l) => load_tag_lines(*self, *expr) == seq![l@],
                None => load_tag_lines(*self, *expr) == Seq::<Seq<char>>::empty(),
            },
    {
        match self.emit_time_expr_tag(expr) {
            Some(t) => {
                let n = u64_text(t as u64);
                let l = cat4("    ", "mov r11, ", n.as_str(), "  ; value tag (static)");
                assert(l@ =~= indented("mov r11, "@ + dec_nat(t as nat) + "  ; value tag (static)"@));
                Some(l)
            },
            None => match self.mixed_element_tag_slot(expr) {
                Some(loc) => {
                    let op = loc.operand();
                    let l = cat4("    ", "movzx r11, byte ", op.as_str(), "  ; value tag (shadow slot)");
                    assert(l@ =~= indented("movzx r11, byte "@ + loc_operand(loc) + "  ; value tag (shadow slot)"@));
                    Some(l)
                },
                None => {
                    if !self.expr_leaves_tag_in_r11(expr) {
                        proof {
                            reveal_strlit("mov r11, 0  ; value tag (integer default: no tag in r11)");
                        }
                        Some(cat2("    ", "mov r11, 0  ; value tag (integer default: no tag in r11)"))
                    } else {
                        None
                    }
                },
            },
        }
    }

    pub(crate) fn emit_tag_line(&mut self, before: &str, tag: u8, after: &str)
        ensures
            final(self).code() == old(self).code().push(indented(before@ + dec_nat(tag as nat) + after@)),
            *final(self) == (CodeGenerator { text: final(self).text, ..*old(self) }),
    {
        let n = u64_text(tag as u64);
        self.emit_indent(cat3(before, n.as_str(), after).as_str());
    }

    pub(crate) fn emit_jump(&mut self, op: &str, label: &String)
        ensures
            final(self).code() == old(self).code().push(indented(op@ + label@)),
            *final(self) == (CodeGenerator { text: final(self).text, ..*old(self) }),
    {
        self.emit_indent(cat2(op, label.as_str()).as_str());
    }

    pub(crate) fn emit_offset_line(&mut self, before: &str, offset: i64, after: &str)
        ensures
            final(self).code() == old(self).code().push(indented(before@ + dec_int(offset as int) + after@)),
            *final(self) == (CodeGenerator { text: final(self).text, ..*old(self) }),
    {
        let n = i64_text(offset);
        self.emit_indent(cat3(before, n.as_str(), after).as_str());
    }
}


impl CodeGenerator {
    /// Cast the `value` variable `name` in place to a scalar type: load its
    /// payload and runtime tag, convert by the tag, and store both back. A
    /// target that is not a scalar, a name with no storage, or one with no
    /// tag slot sets the error flag instead.
    #[verifier::spinoff_prover]
    #[verifier::rlimit(100)]
    pub fn emit_value_retype(&mut self, name: &str, target_type: &Type)
        requires
            old(self).stack_offset <= i64::MAX - 16,
        ensures
            !is_scalar_target(*target_type) ==> final(self).code() == old(self).code() + retype_refusal(
                "; value retype to non-scalar target is unsupported"@,
            ) && final(self).only_text_grew(old(self)),
            is_scalar_target(*target_type) && payload_operand(*old(self), name@) is None ==> final(self).code()
                == old(self).code() + retype_refusal("; value retype target variable not found"@)
                && final(self).only_text_grew(old(self)),
            is_scalar_target(*target_type) && payload_operand(*old(self), name@) is Some && old(self).mixed_slot_named(
                name@,
            ) is None ==> final(self).code() == old(self).code() + retype_refusal(
                "; value retype target has no tag slot"@,
            ) && final(self).only_text_grew(old(self)),
            is_scalar_target(*target_type) ==> match (payload_operand(*old(self), name@), old(self).mixed_slot_named(
                name@,
            )) {
                (Some(p), Some(loc)) => forall|s: String|
                    s@ == name@ ==> #[trigger] retype_shape(
                        *old(self),
                        final(self).code(),
                        Expr::Identifier(s),
                        name@,
                        scalar_noun(*target_type),
                        p,
                        loc_operand(loc),
                    ),
                _ => true,
            },
            final(self).stack_offset >= old(self).stack_offset,
            final(self).stack_offset <= old(self).stack_offset + 16,
            final(self).variables == old(self).variables,
            final(self).variable_types == old(self).variable_types,
            final(self).global_var_labels == old(self).global_var_labels,
            final(self).in_function_codegen == old(self).in_function_codegen,
    {
        let noun: &str = match target_type {
            Type::Integer => "number",
            Type::Float => "float",
            Type::Text => "text",
            Type::Boolean => "boolean",
            _ => {
                self.emit_retype_refusal("; value retype to non-scalar target is unsupported");
                return;
            },
        };
        let payload_op: String = match self.get_var(name) {
            Some(offset) => {
                let o = i64_text(offset);
                cat3("[rbp-", o.as_str(), "]")
            },
            None => {
                let found: Option<String> = match self.global_var_label(name) {
                    Some(label) => Some(cat3("[rel ", label.as_str(), "]")),
                    None => None,
                };
                match found {
                    Some(op) => op,
                    None => {
                        self.emit_retype_refusal("; value retype target variable not found");
                        return;
                    },
                }
            },
        };
        assert(payload_operand(*old(self), name@) == Some(payload_op@));
        let id = Expr::Identifier(String::from_str(name));
        let tag_loc = match self.mixed_element_tag_slot(&id) {
            Some(loc) => loc,
            None => {
                self.emit_retype_refusal("; value retype target has no tag slot");
                return;
            },
        };
        assert(old(self).mixed_slot_named(name@) == Some(tag_loc));
        assert(noun@ == scalar_noun(*target_type));
        self.emit_retype_body(name, &id, noun, &payload_op, &tag_loc, target_type);
        proof {
            assert forall|s: String| s@ == name@ implies #[trigger] retype_shape(
                *old(self),
                self.code(),
                Expr::Identifier(s),
                name@,
                scalar_noun(*target_type),
                payload_op@,
                loc_operand(tag_loc),
            ) by {
                assert(load_tag_lines(*old(self), Expr::Identifier(s)) == load_tag_lines(*old(self), id));
            }
        }
    }

    /// Report a retype that cannot be done.
    fn emit_retype_refusal(&mut self, why: &str)
        ensures
            final(self).code() == old(self).code() + retype_refusal(why@),
            final(self).only_text_grew(old(self)),
    {
        self.emit_indent(why);
        self.emit_indent("SET_LAST_ERROR 1");
        proof {
            assert(self.code() =~= old(self).code() + retype_refusal(why@));
        }
    }

    /// The body of an in-place retype once the payload and tag slots are
    /// known.
    #[verifier::spinoff_prover]
    #[verifier::rlimit(100)]
    fn emit_retype_body(
        &mut self,
        name: &str,
        id: &Expr,
        noun: &str,
        payload_op: &String,
        tag_loc: &ShadowTagLoc,
        target_type: &Type,
    )
        requires
            old(self).stack_offset <= i64::MAX - 16,
            *id matches Expr::Identifier(s) && s@ == name@,
            is_scalar_target(*target_type),
            noun@ == scalar_noun(*target_type),
        ensures
            retype_shape(*old(self), final(self).code(), *id, name@, noun@, payload_op@, loc_operand(*tag_loc)),
            final(self).stack_offset >= old(self).stack_offset,
            final(self).stack_offset <= old(self).stack_offset + 16,
            final(self).variables == old(self).variables,
            final(self).variable_types == old(self).variable_types,
            final(self).global_var_labels == old(self).global_var_labels,
            final(self).in_function_codegen == old(self).in_function_codegen,
    {
        let ghost start = *self;
        self.emit_two(
            cat4("; in-place retype of '", name, "' to ", noun).as_str(),
            cat3("mov rax, ", payload_op.as_str(), "  ; value payload").as_str(),
        );
        let ghost before_tag = *self;
        self.emit_load_value_tag(id);
        proof {
            assert(load_tag_lines(before_tag, *id) == load_tag_lines(start, *id));
        }
        self.emit_scalar_cast_from_runtime_tag(target_type);
        let ghost cast = self.code();
        let op = tag_loc.operand();
        self.emit_two(
            cat3("mov ", payload_op.as_str(), ", rax  ; updated payload").as_str(),
            cat3("mov byte ", op.as_str(), ", r11b  ; updated tag").as_str(),
        );
        proof {
            let pre = before_tag.code() + load_tag_lines(start, *id) + cast_dispatch_lines(start.label_counter);
            assert(code_prefix(pre, cast));
            assert(self.code().subrange(0, cast.len() as int) =~= cast);
            assert(self.code().subrange(0, pre.len() as int) =~= cast.subrange(0, pre.len() as int));
        }
    }

    /// Emit two indented instructions.
    fn emit_two(&mut self, a: &str, b: &str)
        ensures
            final(self).code() == old(self).code() + seq![indented(a@), indented(b@)],
            final(self).only_text_grew(old(self)),
    {
        self.emit_indent(a);
        self.emit_indent(b);
        assert(self.code() =~= old(self).code() + seq![indented(a@), indented(b@)]);
    }
}

} // verus!
