//! Classification of sections by their segment and section names, and of
//! symbols by the kind of their section.
use crate::read::{SectionKind, SymbolKind};
use crate::strings::bytes_eq;
use vstd::prelude::*;

verus! {

/// The name `__TEXT`.
pub open spec fn seg_text() -> Seq<u8> {
    seq![0x5f, 0x5f, 0x54, 0x45, 0x58, 0x54u8]
}

/// Whether `s` is the name `__TEXT`.
fn is_seg_text(s: &[u8]) -> (r: bool)
    ensures
        r == (s@ == seg_text()),
{
    let name: [u8; 6] = [0x5f, 0x5f, 0x54, 0x45, 0x58, 0x54];
    assert(name@ =~= seg_text());
    bytes_eq(s, &name)
}

/// The name `__DATA`.
pub open spec fn seg_data() -> Seq<u8> {
    seq![0x5f, 0x5f, 0x44, 0x41, 0x54, 0x41u8]
}

/// Whether `s` is the name `__DATA`.
fn is_seg_data(s: &[u8]) -> (r: bool)
    ensures
        r == (s@ == seg_data()),
{
    let name: [u8; 6] = [0x5f, 0x5f, 0x44, 0x41, 0x54, 0x41];
    assert(name@ =~= seg_data());
    bytes_eq(s, &name)
}

/// The name `__DWARF`.
pub open spec fn seg_dwarf() -> Seq<u8> {
    seq![0x5f, 0x5f, 0x44, 0x57, 0x41, 0x52, 0x46u8]
}

/// Whether `s` is the name `__DWARF`.
fn is_seg_dwarf(s: &[u8]) -> (r: bool)
    ensures
        r == (s@ == seg_dwarf()),
{
    let name: [u8; 7] = [0x5f, 0x5f, 0x44, 0x57, 0x41, 0x52, 0x46];
    assert(name@ =~= seg_dwarf());
    bytes_eq(s, &name)
}

/// The name `__text`.
pub open spec fn sect_text() -> Seq<u8> {
    seq![0x5f, 0x5f, 0x74, 0x65, 0x78, 0x74u8]
}

/// Whether `s` is the name `__text`.
fn is_sect_text(s: &[u8]) -> (r: bool)
    ensures
        r == (s@ == sect_text()),
{
    let name: [u8; 6] = [0x5f, 0x5f, 0x74, 0x65, 0x78, 0x74];
    assert(name@ =~= sect_text());
    bytes_eq(s, &name)
}

/// The name `__const`.
pub open spec fn sect_const() -> Seq<u8> {
    seq![0x5f, 0x5f, 0x63, 0x6f, 0x6e, 0x73, 0x74u8]
}

/// Whether `s` is the name `__const`.
fn is_sect_const(s: &[u8]) -> (r: bool)
    ensures
        r == (s@ == sect_const()),
{
    let name: [u8; 7] = [0x5f, 0x5f, 0x63, 0x6f, 0x6e, 0x73, 0x74];
    assert(name@ =~= sect_const());
    bytes_eq(s, &name)
}

/// The name `__cstring`.
pub open spec fn sect_cstring() -> Seq<u8> {
    seq![0x5f, 0x5f, 0x63, 0x73, 0x74, 0x72, 0x69, 0x6e, 0x67u8]
}

/// Whether `s` is the name `__cstring`.
fn is_sect_cstring(s: &[u8]) -> (r: bool)
    ensures
        r == (s@ == sect_cstring()),
{
    let name: [u8; 9] = [0x5f, 0x5f, 0x63, 0x73, 0x74, 0x72, 0x69, 0x6e, 0x67];
    assert(name@ =~= sect_cstring());
    bytes_eq(s, &name)
}

/// The name `__literal4`.
pub open spec fn sect_literal4() -> Seq<u8> {
    seq![0x5f, 0x5f, 0x6c, 0x69, 0x74, 0x65, 0x72, 0x61, 0x6c, 0x34u8]
}

/// Whether `s` is the name `__literal4`.
fn is_sect_literal4(s: &[u8]) -> (r: bool)
    ensures
        r == (s@ == sect_literal4()),
{
    let name: [u8; 10] = [0x5f, 0x5f, 0x6c, 0x69, 0x74, 0x65, 0x72, 0x61, 0x6c, 0x34];
    assert(name@ =~= sect_literal4());
    bytes_eq(s, &name)
}

/// The name `__literal8`.
pub open spec fn sect_literal8() -> Seq<u8> {
    seq![0x5f, 0x5f, 0x6c, 0x69, 0x74, 0x65, 0x72, 0x61, 0x6c, 0x38u8]
}

/// Whether `s` is the name `__literal8`.
fn is_sect_literal8(s: &[u8]) -> (r: bool)
    ensures
        r == (s@ == sect_literal8()),
{
    let name: [u8; 10] = [0x5f, 0x5f, 0x6c, 0x69, 0x74, 0x65, 0x72, 0x61, 0x6c, 0x38];
    assert(name@ =~= sect_literal8());
    bytes_eq(s, &name)
}

/// The name `__literal16`.
pub open spec fn sect_literal16() -> Seq<u8> {
    seq![0x5f, 0x5f, 0x6c, 0x69, 0x74, 0x65, 0x72, 0x61, 0x6c, 0x31, 0x36u8]
}

/// Whether `s` is the name `__literal16`.
fn is_sect_literal16(s: &[u8]) -> (r: bool)
    ensures
        r == (s@ == sect_literal16()),
{
    let name: [u8; 11] = [0x5f, 0x5f, 0x6c, 0x69, 0x74, 0x65, 0x72, 0x61, 0x6c, 0x31, 0x36];
    assert(name@ =~= sect_literal16());
    bytes_eq(s, &name)
}

/// The name `__eh_frame`.
pub open spec fn sect_eh_frame() -> Seq<u8> {
    seq![0x5f, 0x5f, 0x65, 0x68, 0x5f, 0x66, 0x72, 0x61, 0x6d, 0x65u8]
}

/// Whether `s` is the name `__eh_frame`.
fn is_sect_eh_frame(s: &[u8]) -> (r: bool)
    ensures
        r == (s@ == sect_eh_frame()),
{
    let name: [u8; 10] = [0x5f, 0x5f, 0x65, 0x68, 0x5f, 0x66, 0x72, 0x61, 0x6d, 0x65];
    assert(name@ =~= sect_eh_frame());
    bytes_eq(s, &name)
}

/// The name `__gcc_except_tab`.
pub open spec fn sect_gcc_except_tab() -> Seq<u8> {
    seq![0x5f, 0x5f, 0x67, 0x63, 0x63, 0x5f, 0x65, 0x78, 0x63, 0x65, 0x70, 0x74, 0x5f, 0x74, 0x61, 0x62u8]
}

/// Whether `s` is the name `__gcc_except_tab`.
fn is_sect_gcc_except_tab(s: &[u8]) -> (r: bool)
    ensures
        r == (s@ == sect_gcc_except_tab()),
{
    let name: [u8; 16] = [0x5f, 0x5f, 0x67, 0x63, 0x63, 0x5f, 0x65, 0x78, 0x63, 0x65, 0x70, 0x74, 0x5f, 0x74, 0x61, 0x62];
    assert(name@ =~= sect_gcc_except_tab());
    bytes_eq(s, &name)
}

/// The name `__data`.
pub open spec fn sect_data() -> Seq<u8> {
    seq![0x5f, 0x5f, 0x64, 0x61, 0x74, 0x61u8]
}

/// Whether `s` is the name `__data`.
fn is_sect_data(s: &[u8]) -> (r: bool)
    ensures
        r == (s@ == sect_data()),
{
    let name: [u8; 6] = [0x5f, 0x5f, 0x64, 0x61, 0x74, 0x61];
    assert(name@ =~= sect_data());
    bytes_eq(s, &name)
}

/// The name `__bss`.
pub open spec fn sect_bss() -> Seq<u8> {
    seq![0x5f, 0x5f, 0x62, 0x73, 0x73u8]
}

/// Whether `s` is the name `__bss`.
fn is_sect_bss(s: &[u8]) -> (r: bool)
    ensures
        r == (s@ == sect_bss()),
{
    let name: [u8; 5] = [0x5f, 0x5f, 0x62, 0x73, 0x73];
    assert(name@ =~= sect_bss());
    bytes_eq(s, &name)
}

/// The name `__common`.
pub open spec fn sect_common() -> Seq<u8> {
    seq![0x5f, 0x5f, 0x63, 0x6f, 0x6d, 0x6d, 0x6f, 0x6eu8]
}

/// Whether `s` is the name `__common`.
fn is_sect_common(s: &[u8]) -> (r: bool)
    ensures
        r == (s@ == sect_common()),
{
    let name: [u8; 8] = [0x5f, 0x5f, 0x63, 0x6f, 0x6d, 0x6d, 0x6f, 0x6e];
    assert(name@ =~= sect_common());
    bytes_eq(s, &name)
}

/// The name `__thread_data`.
pub open spec fn sect_thread_data() -> Seq<u8> {
    seq![0x5f, 0x5f, 0x74, 0x68, 0x72, 0x65, 0x61, 0x64, 0x5f, 0x64, 0x61, 0x74, 0x61u8]
}

/// Whether `s` is the name `__thread_data`.
fn is_sect_thread_data(s: &[u8]) -> (r: bool)
    ensures
        r == (s@ == sect_thread_data()),
{
    let name: [u8; 13] = [0x5f, 0x5f, 0x74, 0x68, 0x72, 0x65, 0x61, 0x64, 0x5f, 0x64, 0x61, 0x74, 0x61];
    assert(name@ =~= sect_thread_data());
    bytes_eq(s, &name)
}

/// The name `__thread_bss`.
pub open spec fn sect_thread_bss() -> Seq<u8> {
    seq![0x5f, 0x5f, 0x74, 0x68, 0x72, 0x65, 0x61, 0x64, 0x5f, 0x62, 0x73, 0x73u8]
}

/// Whether `s` is the name `__thread_bss`.
fn is_sect_thread_bss(s: &[u8]) -> (r: bool)
    ensures
        r == (s@ == sect_thread_bss()),
{
    let name: [u8; 12] = [0x5f, 0x5f, 0x74, 0x68, 0x72, 0x65, 0x61, 0x64, 0x5f, 0x62, 0x73, 0x73];
    assert(name@ =~= sect_thread_bss());
    bytes_eq(s, &name)
}

/// The name `__thread_vars`.
pub open spec fn sect_thread_vars() -> Seq<u8> {
    seq![0x5f, 0x5f, 0x74, 0x68, 0x72, 0x65, 0x61, 0x64, 0x5f, 0x76, 0x61, 0x72, 0x73u8]
}

/// Whether `s` is the name `__thread_vars`.
fn is_sect_thread_vars(s: &[u8]) -> (r: bool)
    ensures
        r == (s@ == sect_thread_vars()),
{
    let name: [u8; 13] = [0x5f, 0x5f, 0x74, 0x68, 0x72, 0x65, 0x61, 0x64, 0x5f, 0x76, 0x61, 0x72, 0x73];
    assert(name@ =~= sect_thread_vars());
    bytes_eq(s, &name)
}

/// The kind of a section, by its segment name and its section name, both
/// up to their first NUL byte.
pub open spec fn spec_section_kind(seg: Seq<u8>, sect: Seq<u8>) -> SectionKind {
    if seg == seg_text() {
        if sect == sect_text() {
            SectionKind::Text
        } else if sect == sect_const() {
            SectionKind::ReadOnlyData
        } else if sect == sect_cstring() {
            SectionKind::ReadOnlyString
        } else if sect == sect_literal4() || sect == sect_literal8() || sect == sect_literal16()
            || sect == sect_eh_frame() || sect == sect_gcc_except_tab() {
            SectionKind::ReadOnlyData
        } else {
            SectionKind::Unknown
        }
    } else if seg == seg_data() {
        if sect == sect_data() {
            SectionKind::Data
        } else if sect == sect_const() {
            SectionKind::ReadOnlyData
        } else if sect == sect_bss() {
            SectionKind::UninitializedData
        } else if sect == sect_common() {
            SectionKind::Common
        } else if sect == sect_thread_data() {
            SectionKind::Tls
        } else if sect == sect_thread_bss() {
            SectionKind::UninitializedTls
        } else if sect == sect_thread_vars() {
            SectionKind::TlsVariables
        } else {
            SectionKind::Unknown
        }
    } else if seg == seg_dwarf() {
        SectionKind::Debug
    } else {
        SectionKind::Unknown
    }
}

/// Classifies a section by its segment name and its section name.
pub fn section_kind(seg: &[u8], sect: &[u8]) -> (r: SectionKind)
    ensures
        r == spec_section_kind(seg@, sect@),
{
    if is_seg_text(seg) {
        if is_sect_text(sect) {
            SectionKind::Text
        } else if is_sect_const(sect) {
            SectionKind::ReadOnlyData
        } else if is_sect_cstring(sect) {
            SectionKind::ReadOnlyString
        } else if is_sect_literal4(sect) || is_sect_literal8(sect) || is_sect_literal16(sect)
            || is_sect_eh_frame(sect) || is_sect_gcc_except_tab(sect) {
            SectionKind::ReadOnlyData
        } else {
            SectionKind::Unknown
        }
    } else if is_seg_data(seg) {
        if is_sect_data(sect) {
            SectionKind::Data
        } else if is_sect_const(sect) {
            SectionKind::ReadOnlyData
        } else if is_sect_bss(sect) {
            SectionKind::UninitializedData
        } else if is_sect_common(sect) {
            SectionKind::Common
        } else if is_sect_thread_data(sect) {
            SectionKind::Tls
        } else if is_sect_thread_bss(sect) {
            SectionKind::UninitializedTls
        } else if is_sect_thread_vars(sect) {
            SectionKind::TlsVariables
        } else {
            SectionKind::Unknown
        }
    } else if is_seg_dwarf(seg) {
        SectionKind::Debug
    } else {
        SectionKind::Unknown
    }
}

/// The kind of a symbol defined in a section of kind `k`.
pub open spec fn spec_symbol_kind(k: SectionKind) -> SymbolKind {
    match k {
        SectionKind::Text => SymbolKind::Text,
        SectionKind::Data | SectionKind::ReadOnlyData | SectionKind::ReadOnlyString
        | SectionKind::UninitializedData | SectionKind::Common => SymbolKind::Data,
        SectionKind::Tls | SectionKind::UninitializedTls | SectionKind::TlsVariables => SymbolKind::Tls,
        _ => SymbolKind::Unknown,
    }
}

/// The kind of a symbol defined in a section of kind `k`.
pub fn symbol_kind(k: SectionKind) -> (r: SymbolKind)
    ensures
        r == spec_symbol_kind(k),
{
    match k {
        SectionKind::Text => SymbolKind::Text,
        SectionKind::Data | SectionKind::ReadOnlyData | SectionKind::ReadOnlyString
        | SectionKind::UninitializedData | SectionKind::Common => SymbolKind::Data,
        SectionKind::Tls | SectionKind::UninitializedTls | SectionKind::TlsVariables => SymbolKind::Tls,
        _ => SymbolKind::Unknown,
    }
}

} // verus!
