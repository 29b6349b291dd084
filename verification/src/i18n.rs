//! Languages, locale parsing and the localized texts of tiers, outcomes
//! and error messages.

use vstd::prelude::*;
use vstd::string::*;

use crate::signal::TerminationStatusCode;
use crate::text::{
    ascii_lower, ascii_lowercase, chars_of, chars_start_with, decimal_text, has_prefix,
    list_punctuation, newline_sep, push_decimal_i32, split_lines, split_on, str_equal,
    str_starts_with, string_texts, strip, strip_list_punctuation, to_lowercase, trim, trim_str,
    push_char, to_ascii_lower,
    lowercase, all_ascii, ascii_uppercase, ascii_upper,
};
use crate::whitelist::WhitelistTier;

verus! {

/// The interface languages.
#[derive(Debug, Clone, Copy, PartialEq, Eq, Structural, Hash)]
pub enum Language {
    En,
    ZhHans,
    ZhHant,
    Ja,
    Ko,
    Fr,
    De,
    Es,
    Pt,
    It,
    Ru,
    Nl,
    Pl,
    Tr,
    Ar,
    Th,
    Vi,
    Id,
    Sv,
    Da,
    Nb,
    Fi,
    Cs,
    Uk,
}

/// `Language::En` is the default language.
impl Default for Language {
    fn default() -> (r: Self)
        ensures
            r == Language::En,
    {
        Language::En
    }
}

/// The BCP-47 code of a language.
pub open spec fn language_code(l: Language) -> Seq<char> {
    match l {
        Language::En => "en"@,
        Language::ZhHans => "zh-Hans"@,
        Language::ZhHant => "zh-Hant"@,
        Language::Ja => "ja"@,
        Language::Ko => "ko"@,
        Language::Fr => "fr"@,
        Language::De => "de"@,
        Language::Es => "es"@,
        Language::Pt => "pt"@,
        Language::It => "it"@,
        Language::Ru => "ru"@,
        Language::Nl => "nl"@,
        Language::Pl => "pl"@,
        Language::Tr => "tr"@,
        Language::Ar => "ar"@,
        Language::Th => "th"@,
        Language::Vi => "vi"@,
        Language::Id => "id"@,
        Language::Sv => "sv"@,
        Language::Da => "da"@,
        Language::Nb => "nb"@,
        Language::Fi => "fi"@,
        Language::Cs => "cs"@,
        Language::Uk => "uk"@,
    }
}

/// `_` replaced by `-`, as locale identifiers are normalised before matching.
pub open spec fn dash_normalized(s: Seq<char>) -> Seq<char> {
    s.map_values(|c: char| if c == '_' { '-' } else { c })
}

/// The language that a normalised, lower-cased locale identifier names:
/// the first family whose prefix it carries, English when none does.
pub open spec fn language_of_prefix(norm: Seq<char>) -> Language {
    if has_prefix(norm, "zh-hant"@) || has_prefix(norm, "zh-tw"@) || has_prefix(norm, "zh-hk"@) || has_prefix(norm, "zh-mo"@) || has_prefix(norm, "zh-cht"@) {
        Language::ZhHant
    }
    else if has_prefix(norm, "zh"@) {
        Language::ZhHans
    }
    else if has_prefix(norm, "ja"@) {
        Language::Ja
    }
    else if has_prefix(norm, "ko"@) {
        Language::Ko
    }
    else if has_prefix(norm, "fr"@) {
        Language::Fr
    }
    else if has_prefix(norm, "de"@) {
        Language::De
    }
    else if has_prefix(norm, "es"@) {
        Language::Es
    }
    else if has_prefix(norm, "pt"@) {
        Language::Pt
    }
    else if has_prefix(norm, "it"@) {
        Language::It
    }
    else if has_prefix(norm, "ru"@) {
        Language::Ru
    }
    else if has_prefix(norm, "nl"@) {
        Language::Nl
    }
    else if has_prefix(norm, "pl"@) {
        Language::Pl
    }
    else if has_prefix(norm, "tr"@) {
        Language::Tr
    }
    else if has_prefix(norm, "ar"@) {
        Language::Ar
    }
    else if has_prefix(norm, "th"@) {
        Language::Th
    }
    else if has_prefix(norm, "vi"@) {
        Language::Vi
    }
    else if has_prefix(norm, "id"@) {
        Language::Id
    }
    else if has_prefix(norm, "sv"@) {
        Language::Sv
    }
    else if has_prefix(norm, "da"@) {
        Language::Da
    }
    else if has_prefix(norm, "nb"@) || has_prefix(norm, "no"@) {
        Language::Nb
    }
    else if has_prefix(norm, "fi"@) {
        Language::Fi
    }
    else if has_prefix(norm, "cs"@) {
        Language::Cs
    }
    else if has_prefix(norm, "uk"@) {
        Language::Uk
    }
    else {
        Language::En
    }
}

/// The language of a locale identifier that has been lower-cased already.
pub open spec fn locale_language(lowered: Seq<char>) -> Language {
    language_of_prefix(dash_normalized(lowered))
}

/// An identifier with `_` read as `-` and ASCII capitals lowered.
pub open spec fn ascii_normalized(s: Seq<char>) -> Seq<char> {
    ascii_lowercase(dash_normalized(s))
}

/// The language a locale identifier names: `_` read as `-` and ASCII
/// capitals lowered first, then lower-cased as `str::to_lowercase` does and
/// matched by prefix.
pub open spec fn locale_str_language(s: Seq<char>) -> Language {
    locale_language(lowercase(ascii_normalized(s)))
}

/// `_` read as `-` and ASCII capitals lowered.
fn ascii_normalize(s: &str) -> (r: String)
    ensures
        r@ == ascii_normalized(s@),
{
    let chars = chars_of(s);
    let mut out = String::new();
    let mut i: usize = 0;
    while i < chars.len()
        invariant
            chars@ == s@,
            i <= chars@.len(),
            out@ == ascii_normalized(chars@.subrange(0, i as int)),
        decreases chars.len() - i,
    {
        let c = chars[i];
        let d = if c == '_' {
            '-'
        } else {
            c
        };
        push_char(&mut out, to_ascii_lower(d));
        assert(ascii_normalized(chars@.subrange(0, i + 1)) =~= ascii_normalized(
            chars@.subrange(0, i as int),
        ).push(ascii_lower(d)));
        i = i + 1;
    }
    assert(chars@.subrange(0, chars@.len() as int) == chars@);
    out
}

impl Language {
    /// Parses a locale identifier such as "zh-CN", "en_US", "ja" or "zh-Hans":
    /// `_` read as `-`, lower-cased, then matched by prefix. Separators and
    /// ASCII letters are normalised before the Unicode lower-casing, so that
    /// neither the separator nor ASCII letter case can change the result.
    pub fn from_locale_str(s: &str) -> (r: Self)
        ensures
            r == locale_str_language(s@),
    {
        let normalized = ascii_normalize(s);
        let lowered = to_lowercase(normalized.as_str());
        Self::from_lowercase_locale(lowered.as_str())
    }

    /// Parses a locale identifier that is already lower-cased.
    pub fn from_lowercase_locale(lowered: &str) -> (r: Self)
        ensures
            r == locale_language(lowered@),
    {
        let raw = chars_of(lowered);
        let mut norm: Vec<char> = Vec::new();
        let mut i: usize = 0;
        while i < raw.len()
            invariant
                raw@ == lowered@,
                i <= raw@.len(),
                norm@ == dash_normalized(raw@.subrange(0, i as int)),
            decreases raw.len() - i,
        {
            let c = raw[i];
            norm.push(if c == '_' { '-' } else { c });
            proof {
                assert(raw@.subrange(0, i + 1) == raw@.subrange(0, i as int).push(c));
            }
            i = i + 1;
        }
        assert(raw@.subrange(0, raw@.len() as int) == raw@);
        if chars_start_with(&norm, "zh-hant") || chars_start_with(&norm, "zh-tw") || chars_start_with(&norm, "zh-hk") || chars_start_with(&norm, "zh-mo") || chars_start_with(&norm, "zh-cht") {
            Language::ZhHant
        }
        else if chars_start_with(&norm, "zh") {
            Language::ZhHans
        }
        else if chars_start_with(&norm, "ja") {
            Language::Ja
        }
        else if chars_start_with(&norm, "ko") {
            Language::Ko
        }
        else if chars_start_with(&norm, "fr") {
            Language::Fr
        }
        else if chars_start_with(&norm, "de") {
            Language::De
        }
        else if chars_start_with(&norm, "es") {
            Language::Es
        }
        else if chars_start_with(&norm, "pt") {
            Language::Pt
        }
        else if chars_start_with(&norm, "it") {
            Language::It
        }
        else if chars_start_with(&norm, "ru") {
            Language::Ru
        }
        else if chars_start_with(&norm, "nl") {
            Language::Nl
        }
        else if chars_start_with(&norm, "pl") {
            Language::Pl
        }
        else if chars_start_with(&norm, "tr") {
            Language::Tr
        }
        else if chars_start_with(&norm, "ar") {
            Language::Ar
        }
        else if chars_start_with(&norm, "th") {
            Language::Th
        }
        else if chars_start_with(&norm, "vi") {
            Language::Vi
        }
        else if chars_start_with(&norm, "id") {
            Language::Id
        }
        else if chars_start_with(&norm, "sv") {
            Language::Sv
        }
        else if chars_start_with(&norm, "da") {
            Language::Da
        }
        else if chars_start_with(&norm, "nb") || chars_start_with(&norm, "no") {
            Language::Nb
        }
        else if chars_start_with(&norm, "fi") {
            Language::Fi
        }
        else if chars_start_with(&norm, "cs") {
            Language::Cs
        }
        else if chars_start_with(&norm, "uk") {
            Language::Uk
        }
        else {
            Language::En
        }
    }

    /// The BCP-47 code of the language.
    pub fn code(&self) -> (r: &'static str)
        ensures
            r@ == language_code(*self),
    {
        match self {
            Language::En => "en",
            Language::ZhHans => "zh-Hans",
            Language::ZhHant => "zh-Hant",
            Language::Ja => "ja",
            Language::Ko => "ko",
            Language::Fr => "fr",
            Language::De => "de",
            Language::Es => "es",
            Language::Pt => "pt",
            Language::It => "it",
            Language::Ru => "ru",
            Language::Nl => "nl",
            Language::Pl => "pl",
            Language::Tr => "tr",
            Language::Ar => "ar",
            Language::Th => "th",
            Language::Vi => "vi",
            Language::Id => "id",
            Language::Sv => "sv",
            Language::Da => "da",
            Language::Nb => "nb",
            Language::Fi => "fi",
            Language::Cs => "cs",
            Language::Uk => "uk",
        }
    }
}

/// The language-independent identifier of a tier.
pub open spec fn tier_identifier(t: WhitelistTier) -> Seq<char> {
    match t {
        WhitelistTier::L1CoreOs => "l1_core_os"@,
        WhitelistTier::L2ContextShell => "l2_context_shell"@,
        WhitelistTier::L3PersistentUtilities => "l3_persistent_utilities"@,
        WhitelistTier::L4UserConfig => "l4_user_config"@,
        WhitelistTier::L4CliOverride => "l4_cli_override"@,
    }
}

/// The short code of a tier.
pub open spec fn tier_code(t: WhitelistTier) -> Seq<char> {
    match t {
        WhitelistTier::L1CoreOs => "L1"@,
        WhitelistTier::L2ContextShell => "L2"@,
        WhitelistTier::L3PersistentUtilities => "L3"@,
        WhitelistTier::L4UserConfig => "L4"@,
        WhitelistTier::L4CliOverride => "CLI"@,
    }
}

/// The display label of a tier in a language.
pub open spec fn tier_label(t: WhitelistTier, lang: Language) -> Seq<char> {
    match t {
        WhitelistTier::L1CoreOs => match lang {
            Language::En => "L1: Core OS"@,
            Language::ZhHans => "L1:系统核心"@,
            Language::ZhHant => "L1:系統核心"@,
            Language::Ja => "L1:システムコア"@,
            Language::Ko => "L1:시스템 코어"@,
            Language::Fr => "L1:Cœur système"@,
            Language::De => "L1:Systemkern"@,
            Language::Es => "L1:Núcleo del sistema"@,
            Language::Pt => "L1:Núcleo do sistema"@,
            Language::It => "L1:Core di sistema"@,
            Language::Ru => "L1:Ядро системы"@,
            Language::Nl => "L1:Systeemkern"@,
            Language::Pl => "L1:Rdzeń systemu"@,
            Language::Tr => "L1:Sistem Çekirdeği"@,
            Language::Ar => "L1:نواة النظام"@,
            Language::Th => "L1:แกนระบบ"@,
            Language::Vi => "L1:Cốt lõi hệ thống"@,
            Language::Id => "L1:Inti Sistem"@,
            Language::Sv => "L1:Systemkärna"@,
            Language::Da => "L1:Systemkerne"@,
            Language::Nb => "L1:Systemkjerne"@,
            Language::Fi => "L1:Järjestelmäydin"@,
            Language::Cs => "L1:Jádro systému"@,
            Language::Uk => "L1:Ядро системи"@,
        },
        WhitelistTier::L2ContextShell => match lang {
            Language::En => "L2: Context Shell"@,
            Language::ZhHans => "L2:会话终端"@,
            Language::ZhHant => "L2:工作階段終端"@,
            Language::Ja => "L2:セッション端末"@,
            Language::Ko => "L2:세션 터미널"@,
            Language::Fr => "L2:Terminal de session"@,
            Language::De => "L2:Sitzungs-Shell"@,
            Language::Es => "L2:Terminal de sesión"@,
            Language::Pt => "L2:Terminal de sessão"@,
            Language::It => "L2:Terminale di sessione"@,
            Language::Ru => "L2:Терминал сессии"@,
            Language::Nl => "L2:Context-shell"@,
            Language::Pl => "L2:Powłoka sesji"@,
            Language::Tr => "L2:Oturum Kabuğu"@,
            Language::Ar => "L2:صدفة الجلسة"@,
            Language::Th => "L2:เชลล์เซสชัน"@,
            Language::Vi => "L2:Phiên làm việc"@,
            Language::Id => "L2:Shell Konteks"@,
            Language::Sv => "L2:Kontextskal"@,
            Language::Da => "L2:Kontext-shell"@,
            Language::Nb => "L2:Kontekst-skall"@,
            Language::Fi => "L2:Kontekstikuori"@,
            Language::Cs => "L2:Kontextový shell"@,
            Language::Uk => "L2:Термінал сесії"@,
        },
        WhitelistTier::L3PersistentUtilities => match lang {
            Language::En => "L3: Persistent Utilities"@,
            Language::ZhHans => "L3:常驻设施"@,
            Language::ZhHant => "L3:常駐設施"@,
            Language::Ja => "L3:常駐ユーティリティ"@,
            Language::Ko => "L3:상주 유틸리티"@,
            Language::Fr => "L3:Utilitaires résidents"@,
            Language::De => "L3:Dienstprogramme"@,
            Language::Es => "L3:Utilidades residentes"@,
            Language::Pt => "L3:Utilitários residentes"@,
            Language::It => "L3:Utilità residenti"@,
            Language::Ru => "L3:Системные утилиты"@,
            Language::Nl => "L3:Permanente tools"@,
            Language::Pl => "L3:Narzędzia rezydentne"@,
            Language::Tr => "L3:Yerleşik Araçlar"@,
            Language::Ar => "L3:الأدوات الدائمة"@,
            Language::Th => "L3:ยูทิลิตี้ประจำ"@,
            Language::Vi => "L3:Tiện ích thường trú"@,
            Language::Id => "L3:Utilitas Residen"@,
            Language::Sv => "L3:Residenta verktyg"@,
            Language::Da => "L3:Permanente hjælpeprogrammer"@,
            Language::Nb => "L3:Faste verktøy"@,
            Language::Fi => "L3:Pysyvät apuohjelmat"@,
            Language::Cs => "L3:Rezidentní nástroje"@,
            Language::Uk => "L3:Системні утиліти"@,
        },
        WhitelistTier::L4UserConfig => match lang {
            Language::En => "L4: User Config"@,
            Language::ZhHans => "L4:用户配置"@,
            Language::ZhHant => "L4:使用者設定"@,
            Language::Ja => "L4:ユーザー設定"@,
            Language::Ko => "L4:사용자 설정"@,
            Language::Fr => "L4:Config utilisateur"@,
            Language::De => "L4:Benutzerkonfig"@,
            Language::Es => "L4:Config. de usuario"@,
            Language::Pt => "L4:Config. do usuário"@,
            Language::It => "L4:Config. utente"@,
            Language::Ru => "L4:Пользовательская"@,
            Language::Nl => "L4:Gebruikersconfig"@,
            Language::Pl => "L4:Konfiguracja użytkownika"@,
            Language::Tr => "L4:Kullanıcı Yapılandırması"@,
            Language::Ar => "L4:تكوين المستخدم"@,
            Language::Th => "L4:การกำหนดค่าผู้ใช้"@,
            Language::Vi => "L4:Cấu hình người dùng"@,
            Language::Id => "L4:Konfigurasi Pengguna"@,
            Language::Sv => "L4:Användarkonfig"@,
            Language::Da => "L4:Brugerkonfiguration"@,
            Language::Nb => "L4:Brukerkonfig"@,
            Language::Fi => "L4:Käyttäjäasetukset"@,
            Language::Cs => "L4:Uživatelská konfigurace"@,
            Language::Uk => "L4:Конфігурація користувача"@,
        },
        WhitelistTier::L4CliOverride => match lang {
            Language::En => "L4: CLI Override"@,
            Language::ZhHans => "L4:CLI保留"@,
            Language::ZhHant => "L4:CLI覆寫"@,
            Language::Ja => "L4:CLIオーバーライド"@,
            Language::Ko => "L4:CLI 재정의"@,
            Language::Fr => "L4:Surcharge CLI"@,
            Language::De => "L4:CLI-Überschreibung"@,
            Language::Es => "L4:Anulación de CLI"@,
            Language::Pt => "L4:Substituição de CLI"@,
            Language::It => "L4:Sovrascrittura CLI"@,
            Language::Ru => "L4:Параметр CLI"@,
            Language::Nl => "L4:CLI-overschrijving"@,
            Language::Pl => "L4:Nadpisanie CLI"@,
            Language::Tr => "L4:CLI Geçersiz Kılma"@,
            Language::Ar => "L4:تجاوز CLI"@,
            Language::Th => "L4:การแทนที่ CLI"@,
            Language::Vi => "L4:Ghi đè CLI"@,
            Language::Id => "L4:Penggantian CLI"@,
            Language::Sv => "L4:CLI-undantag"@,
            Language::Da => "L4:CLI-tilsidesættelse"@,
            Language::Nb => "L4:CLI-overstyring"@,
            Language::Fi => "L4:CLI-ohitus"@,
            Language::Cs => "L4:Přepsání CLI"@,
            Language::Uk => "L4:Перевизначення CLI"@,
        },
    }
}

impl WhitelistTier {
    /// Language-independent machine identifier, such as "l1_core_os".
    pub fn identifier(&self) -> (r: &'static str)
        ensures
            r@ == tier_identifier(*self),
    {
        match self {
            WhitelistTier::L1CoreOs => "l1_core_os",
            WhitelistTier::L2ContextShell => "l2_context_shell",
            WhitelistTier::L3PersistentUtilities => "l3_persistent_utilities",
            WhitelistTier::L4UserConfig => "l4_user_config",
            WhitelistTier::L4CliOverride => "l4_cli_override",
        }
    }

    /// Short code: "L1", "L2", "L3", "L4" or "CLI".
    pub fn code(&self) -> (r: &'static str)
        ensures
            r@ == tier_code(*self),
    {
        match self {
            WhitelistTier::L1CoreOs => "L1",
            WhitelistTier::L2ContextShell => "L2",
            WhitelistTier::L3PersistentUtilities => "L3",
            WhitelistTier::L4UserConfig => "L4",
            WhitelistTier::L4CliOverride => "CLI",
        }
    }

    /// The display label of the tier in the given language.
    pub fn localized_label(&self, lang: Language) -> (r: &'static str)
        ensures
            r@ == tier_label(*self, lang),
    {
        match self {
            WhitelistTier::L1CoreOs => match lang {
                Language::En => "L1: Core OS",
                Language::ZhHans => "L1:系统核心",
                Language::ZhHant => "L1:系統核心",
                Language::Ja => "L1:システムコア",
                Language::Ko => "L1:시스템 코어",
                Language::Fr => "L1:Cœur système",
                Language::De => "L1:Systemkern",
                Language::Es => "L1:Núcleo del sistema",
                Language::Pt => "L1:Núcleo do sistema",
                Language::It => "L1:Core di sistema",
                Language::Ru => "L1:Ядро системы",
                Language::Nl => "L1:Systeemkern",
                Language::Pl => "L1:Rdzeń systemu",
                Language::Tr => "L1:Sistem Çekirdeği",
                Language::Ar => "L1:نواة النظام",
                Language::Th => "L1:แกนระบบ",
                Language::Vi => "L1:Cốt lõi hệ thống",
                Language::Id => "L1:Inti Sistem",
                Language::Sv => "L1:Systemkärna",
                Language::Da => "L1:Systemkerne",
                Language::Nb => "L1:Systemkjerne",
                Language::Fi => "L1:Järjestelmäydin",
                Language::Cs => "L1:Jádro systému",
                Language::Uk => "L1:Ядро системи",
            },
            WhitelistTier::L2ContextShell => match lang {
                Language::En => "L2: Context Shell",
                Language::ZhHans => "L2:会话终端",
                Language::ZhHant => "L2:工作階段終端",
                Language::Ja => "L2:セッション端末",
                Language::Ko => "L2:세션 터미널",
                Language::Fr => "L2:Terminal de session",
                Language::De => "L2:Sitzungs-Shell",
                Language::Es => "L2:Terminal de sesión",
                Language::Pt => "L2:Terminal de sessão",
                Language::It => "L2:Terminale di sessione",
                Language::Ru => "L2:Терминал сессии",
                Language::Nl => "L2:Context-shell",
                Language::Pl => "L2:Powłoka sesji",
                Language::Tr => "L2:Oturum Kabuğu",
                Language::Ar => "L2:صدفة الجلسة",
                Language::Th => "L2:เชลล์เซสชัน",
                Language::Vi => "L2:Phiên làm việc",
                Language::Id => "L2:Shell Konteks",
                Language::Sv => "L2:Kontextskal",
                Language::Da => "L2:Kontext-shell",
                Language::Nb => "L2:Kontekst-skall",
                Language::Fi => "L2:Kontekstikuori",
                Language::Cs => "L2:Kontextový shell",
                Language::Uk => "L2:Термінал сесії",
            },
            WhitelistTier::L3PersistentUtilities => match lang {
                Language::En => "L3: Persistent Utilities",
                Language::ZhHans => "L3:常驻设施",
                Language::ZhHant => "L3:常駐設施",
                Language::Ja => "L3:常駐ユーティリティ",
                Language::Ko => "L3:상주 유틸리티",
                Language::Fr => "L3:Utilitaires résidents",
                Language::De => "L3:Dienstprogramme",
                Language::Es => "L3:Utilidades residentes",
                Language::Pt => "L3:Utilitários residentes",
                Language::It => "L3:Utilità residenti",
                Language::Ru => "L3:Системные утилиты",
                Language::Nl => "L3:Permanente tools",
                Language::Pl => "L3:Narzędzia rezydentne",
                Language::Tr => "L3:Yerleşik Araçlar",
                Language::Ar => "L3:الأدوات الدائمة",
                Language::Th => "L3:ยูทิลิตี้ประจำ",
                Language::Vi => "L3:Tiện ích thường trú",
                Language::Id => "L3:Utilitas Residen",
                Language::Sv => "L3:Residenta verktyg",
                Language::Da => "L3:Permanente hjælpeprogrammer",
                Language::Nb => "L3:Faste verktøy",
                Language::Fi => "L3:Pysyvät apuohjelmat",
                Language::Cs => "L3:Rezidentní nástroje",
                Language::Uk => "L3:Системні утиліти",
            },
            WhitelistTier::L4UserConfig => match lang {
                Language::En => "L4: User Config",
                Language::ZhHans => "L4:用户配置",
                Language::ZhHant => "L4:使用者設定",
                Language::Ja => "L4:ユーザー設定",
                Language::Ko => "L4:사용자 설정",
                Language::Fr => "L4:Config utilisateur",
                Language::De => "L4:Benutzerkonfig",
                Language::Es => "L4:Config. de usuario",
                Language::Pt => "L4:Config. do usuário",
                Language::It => "L4:Config. utente",
                Language::Ru => "L4:Пользовательская",
                Language::Nl => "L4:Gebruikersconfig",
                Language::Pl => "L4:Konfiguracja użytkownika",
                Language::Tr => "L4:Kullanıcı Yapılandırması",
                Language::Ar => "L4:تكوين المستخدم",
                Language::Th => "L4:การกำหนดค่าผู้ใช้",
                Language::Vi => "L4:Cấu hình người dùng",
                Language::Id => "L4:Konfigurasi Pengguna",
                Language::Sv => "L4:Användarkonfig",
                Language::Da => "L4:Brugerkonfiguration",
                Language::Nb => "L4:Brukerkonfig",
                Language::Fi => "L4:Käyttäjäasetukset",
                Language::Cs => "L4:Uživatelská konfigurace",
                Language::Uk => "L4:Конфігурація користувача",
            },
            WhitelistTier::L4CliOverride => match lang {
                Language::En => "L4: CLI Override",
                Language::ZhHans => "L4:CLI保留",
                Language::ZhHant => "L4:CLI覆寫",
                Language::Ja => "L4:CLIオーバーライド",
                Language::Ko => "L4:CLI 재정의",
                Language::Fr => "L4:Surcharge CLI",
                Language::De => "L4:CLI-Überschreibung",
                Language::Es => "L4:Anulación de CLI",
                Language::Pt => "L4:Substituição de CLI",
                Language::It => "L4:Sovrascrittura CLI",
                Language::Ru => "L4:Параметр CLI",
                Language::Nl => "L4:CLI-overschrijving",
                Language::Pl => "L4:Nadpisanie CLI",
                Language::Tr => "L4:CLI Geçersiz Kılma",
                Language::Ar => "L4:تجاوز CLI",
                Language::Th => "L4:การแทนที่ CLI",
                Language::Vi => "L4:Ghi đè CLI",
                Language::Id => "L4:Penggantian CLI",
                Language::Sv => "L4:CLI-undantag",
                Language::Da => "L4:CLI-tilsidesættelse",
                Language::Nb => "L4:CLI-overstyring",
                Language::Fi => "L4:CLI-ohitus",
                Language::Cs => "L4:Přepsání CLI",
                Language::Uk => "L4:Перевизначення CLI",
            },
        }
    }
}

/// The short description of a termination status in a language; languages
/// without their own text read the English one.
pub open spec fn status_description(s: TerminationStatusCode, lang: Language) -> Seq<char> {
    match s {
        TerminationStatusCode::SuccessSigterm => match lang {
            Language::ZhHans => "标准终止成功 (SIGTERM)"@,
            Language::ZhHant => "標準結束成功 (SIGTERM)"@,
            Language::Ja => "正常終了 (SIGTERM)"@,
            _ => "Terminated gracefully (SIGTERM)"@,
        },
        TerminationStatusCode::SuccessSigkill => match lang {
            Language::ZhHans => "强制终止成功 (SIGKILL)"@,
            Language::ZhHant => "強制結束成功 (SIGKILL)"@,
            Language::Ja => "強制終了 (SIGKILL)"@,
            _ => "Force terminated (SIGKILL)"@,
        },
        TerminationStatusCode::SuccessAppKit => match lang {
            Language::ZhHans => "终止成功 (AppKit)"@,
            Language::ZhHant => "結束成功 (AppKit)"@,
            Language::Ja => "終了成功 (AppKit)"@,
            _ => "Terminated via AppKit"@,
        },
        TerminationStatusCode::SkippedCallerLineage => match lang {
            Language::ZhHans => "保护调用者会话链路，跳过终止"@,
            Language::ZhHant => "保護呼叫者工作階段連結，跳過結束"@,
            Language::Ja => "呼び出し元セッション保護のためスキップ"@,
            _ => "Caller session protected, skipped"@,
        },
        TerminationStatusCode::SkippedCriticalDaemon => match lang {
            Language::ZhHans => "系统底层守护进程受常驻保护，已跳过终止"@,
            Language::ZhHant => "系統底層守護程序受常駐保護，已跳過結束"@,
            Language::Ja => "システム保護プロセスのためスキップ"@,
            _ => "Critical system daemon protected, skipped"@,
        },
        TerminationStatusCode::FailedPermissionDenied => match lang {
            Language::ZhHans => "权限拒绝"@,
            Language::ZhHant => "權限被拒絕"@,
            Language::Ja => "アクセス拒否"@,
            _ => "Permission denied (EPERM)"@,
        },
        TerminationStatusCode::FailedDispatch => match lang {
            Language::ZhHans => "信号派发失败"@,
            Language::ZhHant => "訊號派發失敗"@,
            Language::Ja => "シグナル送信失敗"@,
            _ => "Signal dispatch failed"@,
        },
        TerminationStatusCode::FailedTimeout => match lang {
            Language::ZhHans => "终止超时 (访达)"@,
            Language::ZhHant => "結束逾時 (Finder)"@,
            Language::Ja => "終了タイムアウト (Finder)"@,
            _ => "Termination timed out (Finder)"@,
        },
        TerminationStatusCode::FailedKill => match lang {
            Language::ZhHans => "强制终止失败 (SIGKILL)"@,
            Language::ZhHant => "強制結束失敗 (SIGKILL)"@,
            Language::Ja => "強制終了失敗 (SIGKILL)"@,
            _ => "Force termination failed (SIGKILL)"@,
        },
        TerminationStatusCode::Unknown => match lang {
            Language::ZhHans => "未知状态"@,
            Language::ZhHant => "未知狀態"@,
            Language::Ja => "不明な状態"@,
            _ => "Unknown status"@,
        },
    }
}

impl TerminationStatusCode {
    /// The localized short description of the status.
    pub fn localized_description(&self, lang: Language) -> (r: &'static str)
        ensures
            r@ == status_description(*self, lang),
    {
        match self {
            TerminationStatusCode::SuccessSigterm => match lang {
                Language::ZhHans => "标准终止成功 (SIGTERM)",
                Language::ZhHant => "標準結束成功 (SIGTERM)",
                Language::Ja => "正常終了 (SIGTERM)",
                _ => "Terminated gracefully (SIGTERM)",
            },
            TerminationStatusCode::SuccessSigkill => match lang {
                Language::ZhHans => "强制终止成功 (SIGKILL)",
                Language::ZhHant => "強制結束成功 (SIGKILL)",
                Language::Ja => "強制終了 (SIGKILL)",
                _ => "Force terminated (SIGKILL)",
            },
            TerminationStatusCode::SuccessAppKit => match lang {
                Language::ZhHans => "终止成功 (AppKit)",
                Language::ZhHant => "結束成功 (AppKit)",
                Language::Ja => "終了成功 (AppKit)",
                _ => "Terminated via AppKit",
            },
            TerminationStatusCode::SkippedCallerLineage => match lang {
                Language::ZhHans => "保护调用者会话链路，跳过终止",
                Language::ZhHant => "保護呼叫者工作階段連結，跳過結束",
                Language::Ja => "呼び出し元セッション保護のためスキップ",
                _ => "Caller session protected, skipped",
            },
            TerminationStatusCode::SkippedCriticalDaemon => match lang {
                Language::ZhHans => "系统底层守护进程受常驻保护，已跳过终止",
                Language::ZhHant => "系統底層守護程序受常駐保護，已跳過結束",
                Language::Ja => "システム保護プロセスのためスキップ",
                _ => "Critical system daemon protected, skipped",
            },
            TerminationStatusCode::FailedPermissionDenied => match lang {
                Language::ZhHans => "权限拒绝",
                Language::ZhHant => "權限被拒絕",
                Language::Ja => "アクセス拒否",
                _ => "Permission denied (EPERM)",
            },
            TerminationStatusCode::FailedDispatch => match lang {
                Language::ZhHans => "信号派发失败",
                Language::ZhHant => "訊號派發失敗",
                Language::Ja => "シグナル送信失敗",
                _ => "Signal dispatch failed",
            },
            TerminationStatusCode::FailedTimeout => match lang {
                Language::ZhHans => "终止超时 (访达)",
                Language::ZhHant => "結束逾時 (Finder)",
                Language::Ja => "終了タイムアウト (Finder)",
                _ => "Termination timed out (Finder)",
            },
            TerminationStatusCode::FailedKill => match lang {
                Language::ZhHans => "强制终止失败 (SIGKILL)",
                Language::ZhHant => "強制結束失敗 (SIGKILL)",
                Language::Ja => "強制終了失敗 (SIGKILL)",
                _ => "Force termination failed (SIGKILL)",
            },
            TerminationStatusCode::Unknown => match lang {
                Language::ZhHans => "未知状态",
                Language::ZhHant => "未知狀態",
                Language::Ja => "不明な状態",
                _ => "Unknown status",
            },
        }
    }
}


/// Helpers that format localized error messages.
pub struct CoreMessages;

/// The parts of the caller-lineage message before and after the PID.
pub open spec fn lineage_error_parts(lang: Language) -> (Seq<char>, Seq<char>) {
    match lang {
        Language::ZhHans => ("进程 PID "@, " 属于当前调用者祖先会话链路"@),
        Language::ZhHant => ("處理程序 PID "@, " 屬於目前呼叫者工作階段連結"@),
        Language::Ja => ("プロセス PID "@, " は現在の呼び出し元セッションに属しています"@),
        _ => ("Process PID "@, " belongs to the caller session lineage"@),
    }
}

/// The message that a PID belongs to the caller's session lineage.
pub open spec fn lineage_error_text(pid: int, lang: Language) -> Seq<char> {
    lineage_error_parts(lang).0 + decimal_text(pid) + lineage_error_parts(lang).1
}

/// The message that critical system daemons cannot be terminated.
pub open spec fn critical_daemon_text(lang: Language) -> Seq<char> {
    match lang {
        Language::ZhHans => "系统底层关键守护服务禁止强制终止"@,
        Language::ZhHant => "系統底層關鍵守護服務禁止強制結束"@,
        Language::Ja => "重要なシステムデーモンは終了できません"@,
        _ => "Critical system daemons cannot be forcibly terminated"@,
    }
}

/// The message that Finder did not quit in time.
pub open spec fn finder_timeout_text(lang: Language) -> Seq<char> {
    match lang {
        Language::ZhHans => "访达未能按时响应退出请求，避免发送 SIGKILL 导致 launchd 异常闪回重拉"@,
        Language::ZhHant => "Finder 未能即時回應結束請求，避免傳送 SIGKILL 導致 launchd 異常閃回重新啟動"@,
        Language::Ja => "Finder が制限時間内に終了しなかったため、launchd による異常再起動を防ぐべく SIGKILL 送信を回避しました"@,
        _ => "Finder did not respond in time; avoiding SIGKILL to prevent launchd abnormal respawn"@,
    }
}

/// `{:?}` of an optional exit code: "Some(n)" or "None".
pub open spec fn exit_code_debug_text(code: Option<i32>) -> Seq<char> {
    match code {
        Some(n) => "Some("@ + decimal_text(n as int) + ")"@,
        None => "None"@,
    }
}

/// The text before the exit code, and the text between the exit code and the detail.
pub open spec fn purge_error_parts(lang: Language) -> (Seq<char>, Seq<char>) {
    match lang {
        Language::ZhHans => ("purge 执行失败 (退出码 "@, "): "@),
        Language::ZhHant => ("purge 執行失敗 (結束代碼 "@, "): "@),
        Language::Ja => ("purge の実行に失敗しました (終了コード "@, "): "@),
        _ => ("purge failed (exit code "@, "): "@),
    }
}

/// The message that the purge tool failed.
pub open spec fn purge_error_text(code: Option<i32>, detail: Seq<char>, lang: Language) -> Seq<char> {
    purge_error_parts(lang).0 + exit_code_debug_text(code) + purge_error_parts(lang).1 + detail
}

impl CoreMessages {
    /// "Process PID ... belongs to the caller session lineage", localized.
    pub fn caller_lineage_error(pid: i32, lang: Language) -> (r: String)
        ensures
            r@ == lineage_error_text(pid as int, lang),
    {
        let (before, after): (&str, &str) = match lang {
            Language::ZhHans => ("进程 PID ", " 属于当前调用者祖先会话链路"),
            Language::ZhHant => ("處理程序 PID ", " 屬於目前呼叫者工作階段連結"),
            Language::Ja => ("プロセス PID ", " は現在の呼び出し元セッションに属しています"),
            _ => ("Process PID ", " belongs to the caller session lineage"),
        };
        assert(before@ == lineage_error_parts(lang).0 && after@ == lineage_error_parts(lang).1);
        let mut out = String::from_str(before);
        push_decimal_i32(&mut out, pid);
        out.append(after);
        out
    }

    /// "Critical system daemons cannot be forcibly terminated", localized.
    pub fn critical_daemon_error(lang: Language) -> (r: &'static str)
        ensures
            r@ == critical_daemon_text(lang),
    {
        match lang {
            Language::ZhHans => "系统底层关键守护服务禁止强制终止",
            Language::ZhHant => "系統底層關鍵守護服務禁止強制結束",
            Language::Ja => "重要なシステムデーモンは終了できません",
            _ => "Critical system daemons cannot be forcibly terminated",
        }
    }

    /// The Finder time-out message, localized.
    pub fn finder_timeout_error(lang: Language) -> (r: &'static str)
        ensures
            r@ == finder_timeout_text(lang),
    {
        match lang {
            Language::ZhHans => {
                "访达未能按时响应退出请求，避免发送 SIGKILL 导致 launchd 异常闪回重拉"
            },
            Language::ZhHant => {
                "Finder 未能即時回應結束請求，避免傳送 SIGKILL 導致 launchd 異常閃回重新啟動"
            },
            Language::Ja => {
                "Finder が制限時間内に終了しなかったため、launchd による異常再起動を防ぐべく SIGKILL 送信を回避しました"
            },
            _ => {
                "Finder did not respond in time; avoiding SIGKILL to prevent launchd abnormal respawn"
            },
        }
    }

    /// "purge failed (exit code ...): detail", localized.
    pub fn purge_failed_error(code: Option<i32>, detail: &str, lang: Language) -> (r: String)
        ensures
            r@ == purge_error_text(code, detail@, lang),
    {
        let (before, between): (&str, &str) = match lang {
            Language::ZhHans => ("purge 执行失败 (退出码 ", "): "),
            Language::ZhHant => ("purge 執行失敗 (結束代碼 ", "): "),
            Language::Ja => ("purge の実行に失敗しました (終了コード ", "): "),
            _ => ("purge failed (exit code ", "): "),
        };
        assert(before@ == purge_error_parts(lang).0 && between@ == purge_error_parts(lang).1);
        let mut out = String::from_str(before);
        match code {
            Some(n) => {
                out.append("Some(");
                push_decimal_i32(&mut out, n);
                out.append(")");
            },
            None => {
                out.append("None");
            },
        }
        out.append(between);
        out.append(detail);
        out
    }
}

/// A language is read back from its own code: `from_locale_str` of the code
/// gives the language it came from.
pub proof fn lemma_code_round_trip(l: Language)
    ensures
        locale_str_language(language_code(l)) == l,
{
    lemma_code_ascii(l);
    lemma_ascii_locale(language_code(l));
    match l {
        Language::En => lemma_code_round_trip_en(),
        Language::ZhHans => lemma_code_round_trip_zh_hans(),
        Language::ZhHant => lemma_code_round_trip_zh_hant(),
        Language::Ja => lemma_code_round_trip_ja(),
        Language::Ko => lemma_code_round_trip_ko(),
        Language::Fr => lemma_code_round_trip_fr(),
        Language::De => lemma_code_round_trip_de(),
        Language::Es => lemma_code_round_trip_es(),
        Language::Pt => lemma_code_round_trip_pt(),
        Language::It => lemma_code_round_trip_it(),
        Language::Ru => lemma_code_round_trip_ru(),
        Language::Nl => lemma_code_round_trip_nl(),
        Language::Pl => lemma_code_round_trip_pl(),
        Language::Tr => lemma_code_round_trip_tr(),
        Language::Ar => lemma_code_round_trip_ar(),
        Language::Th => lemma_code_round_trip_th(),
        Language::Vi => lemma_code_round_trip_vi(),
        Language::Id => lemma_code_round_trip_id(),
        Language::Sv => lemma_code_round_trip_sv(),
        Language::Da => lemma_code_round_trip_da(),
        Language::Nb => lemma_code_round_trip_nb(),
        Language::Fi => lemma_code_round_trip_fi(),
        Language::Cs => lemma_code_round_trip_cs(),
        Language::Uk => lemma_code_round_trip_uk(),
    }
}

proof fn lemma_upper_then_lower(c: char)
    ensures
        ascii_lower(ascii_upper(c)) == ascii_lower(c),
        ascii_upper(c) == '_' <==> c == '_',
{
    if 'a' <= c && c <= 'z' {
        let u = ((c as u32) - 32) as char;
        assert((u as u32) == (c as u32) - 32);
    }
}

proof fn lemma_lower_char(c: char)
    ensures
        ascii_lower(ascii_lower(c)) == ascii_lower(c),
        ascii_lower(c) == '_' <==> c == '_',
        (c as u32) < 128 ==> (ascii_lower(c) as u32) < 128,
{
    if 'A' <= c && c <= 'Z' {
        let l = ((c as u32) + 32) as char;
        assert((l as u32) == (c as u32) + 32);
    }
}

/// On an ASCII identifier the reading is plain ASCII lower-casing.
proof fn lemma_ascii_locale(s: Seq<char>)
    requires
        all_ascii(s),
    ensures
        locale_str_language(s) == locale_language(ascii_lowercase(s)),
{
    let n = ascii_normalized(s);
    assert forall|i: int| 0 <= i < n.len() implies (#[trigger] n[i] as u32) < 128 by {
        lemma_lower_char(dash_normalized(s)[i]);
    }
    assert(all_ascii(n));
    assert forall|i: int| 0 <= i < s.len() implies #[trigger] dash_normalized(ascii_lowercase(n))[i]
        == dash_normalized(ascii_lowercase(s))[i] by {
        lemma_lower_char(s[i]);
        lemma_lower_char(dash_normalized(s)[i]);
        lemma_lower_char(ascii_lower(dash_normalized(s)[i]));
    }
    assert(dash_normalized(ascii_lowercase(n)) =~= dash_normalized(ascii_lowercase(s)));
}

/// Letter case and the separator never change the language read from a
/// locale identifier: "en_US", "EN-us" and "en-US" read alike, as do "zh_TW"
/// and "ZH-tw", for every identifier, ASCII or not.
pub proof fn lemma_locale_ignores_case_and_separator(s: Seq<char>)
    ensures
        locale_str_language(ascii_uppercase(s)) == locale_str_language(s),
        locale_str_language(dash_normalized(s)) == locale_str_language(s),
{
    assert forall|i: int| 0 <= i < s.len() implies #[trigger] ascii_normalized(ascii_uppercase(s))[i]
        == ascii_normalized(s)[i] by {
        lemma_upper_then_lower(s[i]);
    }
    assert(ascii_normalized(ascii_uppercase(s)) =~= ascii_normalized(s));
    assert(ascii_normalized(dash_normalized(s)) =~= ascii_normalized(s));
}

/// The prefix a tier label carries in every language.
pub open spec fn tier_prefix(t: WhitelistTier) -> Seq<char> {
    match t {
        WhitelistTier::L1CoreOs => "L1:"@,
        WhitelistTier::L2ContextShell => "L2:"@,
        WhitelistTier::L3PersistentUtilities => "L3:"@,
        WhitelistTier::L4UserConfig => "L4:"@,
        WhitelistTier::L4CliOverride => "L4:"@,
    }
}

/// In every language a tier label starts with its tier's prefix ("L1:" to
/// "L4:"), and distinct tiers have distinct labels.
pub proof fn lemma_tier_labels(t: WhitelistTier, u: WhitelistTier, lang: Language)
    ensures
        has_prefix(tier_label(t, lang), tier_prefix(t)),
        t != u ==> tier_label(t, lang) != tier_label(u, lang),
{
    match lang {
        Language::En => lemma_tier_labels_en(),
        Language::ZhHans => lemma_tier_labels_zh_hans(),
        Language::ZhHant => lemma_tier_labels_zh_hant(),
        Language::Ja => lemma_tier_labels_ja(),
        Language::Ko => lemma_tier_labels_ko(),
        Language::Fr => lemma_tier_labels_fr(),
        Language::De => lemma_tier_labels_de(),
        Language::Es => lemma_tier_labels_es(),
        Language::Pt => lemma_tier_labels_pt(),
        Language::It => lemma_tier_labels_it(),
        Language::Ru => lemma_tier_labels_ru(),
        Language::Nl => lemma_tier_labels_nl(),
        Language::Pl => lemma_tier_labels_pl(),
        Language::Tr => lemma_tier_labels_tr(),
        Language::Ar => lemma_tier_labels_ar(),
        Language::Th => lemma_tier_labels_th(),
        Language::Vi => lemma_tier_labels_vi(),
        Language::Id => lemma_tier_labels_id(),
        Language::Sv => lemma_tier_labels_sv(),
        Language::Da => lemma_tier_labels_da(),
        Language::Nb => lemma_tier_labels_nb(),
        Language::Fi => lemma_tier_labels_fi(),
        Language::Cs => lemma_tier_labels_cs(),
        Language::Uk => lemma_tier_labels_uk(),
    }
    reveal_strlit("L1:");
    reveal_strlit("L2:");
    reveal_strlit("L3:");
    reveal_strlit("L4:");
    assert(has_prefix(tier_label(u, lang), tier_prefix(u))) by {
        match u {
            WhitelistTier::L1CoreOs => {},
            WhitelistTier::L2ContextShell => {},
            WhitelistTier::L3PersistentUtilities => {},
            WhitelistTier::L4UserConfig => {},
            WhitelistTier::L4CliOverride => {},
        }
    }
    assert(has_prefix(tier_label(t, lang), tier_prefix(t))) by {
        match t {
            WhitelistTier::L1CoreOs => {},
            WhitelistTier::L2ContextShell => {},
            WhitelistTier::L3PersistentUtilities => {},
            WhitelistTier::L4UserConfig => {},
            WhitelistTier::L4CliOverride => {},
        }
    }
    if t != u {
        if tier_prefix(t) != tier_prefix(u) {
            assert(tier_label(t, lang).subrange(0, 3)[1] == tier_label(t, lang)[1]);
            assert(tier_label(u, lang).subrange(0, 3)[1] == tier_label(u, lang)[1]);
            assert(tier_prefix(t)[1] != tier_prefix(u)[1]);
            assert(tier_label(t, lang) != tier_label(u, lang));
        } else {
            assert(tier_label(WhitelistTier::L4UserConfig, lang) != tier_label(
                WhitelistTier::L4CliOverride,
                lang,
            ));
            assert(tier_prefix(t)[1] == tier_prefix(u)[1]);
            assert(t == WhitelistTier::L4UserConfig || t == WhitelistTier::L4CliOverride);
        }
    }
}

proof fn lemma_tier_labels_en()
    ensures
        has_prefix(tier_label(WhitelistTier::L1CoreOs, Language::En), "L1:"@),
        has_prefix(tier_label(WhitelistTier::L2ContextShell, Language::En), "L2:"@),
        has_prefix(tier_label(WhitelistTier::L3PersistentUtilities, Language::En), "L3:"@),
        has_prefix(tier_label(WhitelistTier::L4UserConfig, Language::En), "L4:"@),
        has_prefix(tier_label(WhitelistTier::L4CliOverride, Language::En), "L4:"@),
        tier_label(WhitelistTier::L4UserConfig, Language::En) != tier_label(
            WhitelistTier::L4CliOverride,
            Language::En,
        ),
{
    reveal_strlit("L1:");
    reveal_strlit("L2:");
    reveal_strlit("L3:");
    reveal_strlit("L4:");
    reveal_strlit("L1: Core OS");
    assert(tier_label(WhitelistTier::L1CoreOs, Language::En).subrange(0, 3) =~= "L1:"@);
    reveal_strlit("L2: Context Shell");
    assert(tier_label(WhitelistTier::L2ContextShell, Language::En).subrange(0, 3) =~= "L2:"@);
    reveal_strlit("L3: Persistent Utilities");
    assert(tier_label(WhitelistTier::L3PersistentUtilities, Language::En).subrange(0, 3) =~= "L3:"@);
    reveal_strlit("L4: User Config");
    assert(tier_label(WhitelistTier::L4UserConfig, Language::En).subrange(0, 3) =~= "L4:"@);
    reveal_strlit("L4: CLI Override");
    assert(tier_label(WhitelistTier::L4CliOverride, Language::En).subrange(0, 3) =~= "L4:"@);
    assert(tier_label(WhitelistTier::L4UserConfig, Language::En)[4] != tier_label(
        WhitelistTier::L4CliOverride,
        Language::En,
    )[4]);
}

proof fn lemma_tier_labels_zh_hans()
    ensures
        has_prefix(tier_label(WhitelistTier::L1CoreOs, Language::ZhHans), "L1:"@),
        has_prefix(tier_label(WhitelistTier::L2ContextShell, Language::ZhHans), "L2:"@),
        has_prefix(tier_label(WhitelistTier::L3PersistentUtilities, Language::ZhHans), "L3:"@),
        has_prefix(tier_label(WhitelistTier::L4UserConfig, Language::ZhHans), "L4:"@),
        has_prefix(tier_label(WhitelistTier::L4CliOverride, Language::ZhHans), "L4:"@),
        tier_label(WhitelistTier::L4UserConfig, Language::ZhHans) != tier_label(
            WhitelistTier::L4CliOverride,
            Language::ZhHans,
        ),
{
    reveal_strlit("L1:");
    reveal_strlit("L2:");
    reveal_strlit("L3:");
    reveal_strlit("L4:");
    reveal_strlit("L1:系统核心");
    assert(tier_label(WhitelistTier::L1CoreOs, Language::ZhHans).subrange(0, 3) =~= "L1:"@);
    reveal_strlit("L2:会话终端");
    assert(tier_label(WhitelistTier::L2ContextShell, Language::ZhHans).subrange(0, 3) =~= "L2:"@);
    reveal_strlit("L3:常驻设施");
    assert(tier_label(WhitelistTier::L3PersistentUtilities, Language::ZhHans).subrange(0, 3) =~= "L3:"@);
    reveal_strlit("L4:用户配置");
    assert(tier_label(WhitelistTier::L4UserConfig, Language::ZhHans).subrange(0, 3) =~= "L4:"@);
    reveal_strlit("L4:CLI保留");
    assert(tier_label(WhitelistTier::L4CliOverride, Language::ZhHans).subrange(0, 3) =~= "L4:"@);
    assert(tier_label(WhitelistTier::L4UserConfig, Language::ZhHans)[3] != tier_label(
        WhitelistTier::L4CliOverride,
        Language::ZhHans,
    )[3]);
}

proof fn lemma_tier_labels_zh_hant()
    ensures
        has_prefix(tier_label(WhitelistTier::L1CoreOs, Language::ZhHant), "L1:"@),
        has_prefix(tier_label(WhitelistTier::L2ContextShell, Language::ZhHant), "L2:"@),
        has_prefix(tier_label(WhitelistTier::L3PersistentUtilities, Language::ZhHant), "L3:"@),
        has_prefix(tier_label(WhitelistTier::L4UserConfig, Language::ZhHant), "L4:"@),
        has_prefix(tier_label(WhitelistTier::L4CliOverride, Language::ZhHant), "L4:"@),
        tier_label(WhitelistTier::L4UserConfig, Language::ZhHant) != tier_label(
            WhitelistTier::L4CliOverride,
            Language::ZhHant,
        ),
{
    reveal_strlit("L1:");
    reveal_strlit("L2:");
    reveal_strlit("L3:");
    reveal_strlit("L4:");
    reveal_strlit("L1:系統核心");
    assert(tier_label(WhitelistTier::L1CoreOs, Language::ZhHant).subrange(0, 3) =~= "L1:"@);
    reveal_strlit("L2:工作階段終端");
    assert(tier_label(WhitelistTier::L2ContextShell, Language::ZhHant).subrange(0, 3) =~= "L2:"@);
    reveal_strlit("L3:常駐設施");
    assert(tier_label(WhitelistTier::L3PersistentUtilities, Language::ZhHant).subrange(0, 3) =~= "L3:"@);
    reveal_strlit("L4:使用者設定");
    assert(tier_label(WhitelistTier::L4UserConfig, Language::ZhHant).subrange(0, 3) =~= "L4:"@);
    reveal_strlit("L4:CLI覆寫");
    assert(tier_label(WhitelistTier::L4CliOverride, Language::ZhHant).subrange(0, 3) =~= "L4:"@);
    assert(tier_label(WhitelistTier::L4UserConfig, Language::ZhHant)[3] != tier_label(
        WhitelistTier::L4CliOverride,
        Language::ZhHant,
    )[3]);
}

proof fn lemma_tier_labels_ja()
    ensures
        has_prefix(tier_label(WhitelistTier::L1CoreOs, Language::Ja), "L1:"@),
        has_prefix(tier_label(WhitelistTier::L2ContextShell, Language::Ja), "L2:"@),
        has_prefix(tier_label(WhitelistTier::L3PersistentUtilities, Language::Ja), "L3:"@),
        has_prefix(tier_label(WhitelistTier::L4UserConfig, Language::Ja), "L4:"@),
        has_prefix(tier_label(WhitelistTier::L4CliOverride, Language::Ja), "L4:"@),
        tier_label(WhitelistTier::L4UserConfig, Language::Ja) != tier_label(
            WhitelistTier::L4CliOverride,
            Language::Ja,
        ),
{
    reveal_strlit("L1:");
    reveal_strlit("L2:");
    reveal_strlit("L3:");
    reveal_strlit("L4:");
    reveal_strlit("L1:システムコア");
    assert(tier_label(WhitelistTier::L1CoreOs, Language::Ja).subrange(0, 3) =~= "L1:"@);
    reveal_strlit("L2:セッション端末");
    assert(tier_label(WhitelistTier::L2ContextShell, Language::Ja).subrange(0, 3) =~= "L2:"@);
    reveal_strlit("L3:常駐ユーティリティ");
    assert(tier_label(WhitelistTier::L3PersistentUtilities, Language::Ja).subrange(0, 3) =~= "L3:"@);
    reveal_strlit("L4:ユーザー設定");
    assert(tier_label(WhitelistTier::L4UserConfig, Language::Ja).subrange(0, 3) =~= "L4:"@);
    reveal_strlit("L4:CLIオーバーライド");
    assert(tier_label(WhitelistTier::L4CliOverride, Language::Ja).subrange(0, 3) =~= "L4:"@);
    assert(tier_label(WhitelistTier::L4UserConfig, Language::Ja)[3] != tier_label(
        WhitelistTier::L4CliOverride,
        Language::Ja,
    )[3]);
}

proof fn lemma_tier_labels_ko()
    ensures
        has_prefix(tier_label(WhitelistTier::L1CoreOs, Language::Ko), "L1:"@),
        has_prefix(tier_label(WhitelistTier::L2ContextShell, Language::Ko), "L2:"@),
        has_prefix(tier_label(WhitelistTier::L3PersistentUtilities, Language::Ko), "L3:"@),
        has_prefix(tier_label(WhitelistTier::L4UserConfig, Language::Ko), "L4:"@),
        has_prefix(tier_label(WhitelistTier::L4CliOverride, Language::Ko), "L4:"@),
        tier_label(WhitelistTier::L4UserConfig, Language::Ko) != tier_label(
            WhitelistTier::L4CliOverride,
            Language::Ko,
        ),
{
    reveal_strlit("L1:");
    reveal_strlit("L2:");
    reveal_strlit("L3:");
    reveal_strlit("L4:");
    reveal_strlit("L1:시스템 코어");
    assert(tier_label(WhitelistTier::L1CoreOs, Language::Ko).subrange(0, 3) =~= "L1:"@);
    reveal_strlit("L2:세션 터미널");
    assert(tier_label(WhitelistTier::L2ContextShell, Language::Ko).subrange(0, 3) =~= "L2:"@);
    reveal_strlit("L3:상주 유틸리티");
    assert(tier_label(WhitelistTier::L3PersistentUtilities, Language::Ko).subrange(0, 3) =~= "L3:"@);
    reveal_strlit("L4:사용자 설정");
    assert(tier_label(WhitelistTier::L4UserConfig, Language::Ko).subrange(0, 3) =~= "L4:"@);
    reveal_strlit("L4:CLI 재정의");
    assert(tier_label(WhitelistTier::L4CliOverride, Language::Ko).subrange(0, 3) =~= "L4:"@);
    assert(tier_label(WhitelistTier::L4UserConfig, Language::Ko)[3] != tier_label(
        WhitelistTier::L4CliOverride,
        Language::Ko,
    )[3]);
}

proof fn lemma_tier_labels_fr()
    ensures
        has_prefix(tier_label(WhitelistTier::L1CoreOs, Language::Fr), "L1:"@),
        has_prefix(tier_label(WhitelistTier::L2ContextShell, Language::Fr), "L2:"@),
        has_prefix(tier_label(WhitelistTier::L3PersistentUtilities, Language::Fr), "L3:"@),
        has_prefix(tier_label(WhitelistTier::L4UserConfig, Language::Fr), "L4:"@),
        has_prefix(tier_label(WhitelistTier::L4CliOverride, Language::Fr), "L4:"@),
        tier_label(WhitelistTier::L4UserConfig, Language::Fr) != tier_label(
            WhitelistTier::L4CliOverride,
            Language::Fr,
        ),
{
    reveal_strlit("L1:");
    reveal_strlit("L2:");
    reveal_strlit("L3:");
    reveal_strlit("L4:");
    reveal_strlit("L1:Cœur système");
    assert(tier_label(WhitelistTier::L1CoreOs, Language::Fr).subrange(0, 3) =~= "L1:"@);
    reveal_strlit("L2:Terminal de session");
    assert(tier_label(WhitelistTier::L2ContextShell, Language::Fr).subrange(0, 3) =~= "L2:"@);
    reveal_strlit("L3:Utilitaires résidents");
    assert(tier_label(WhitelistTier::L3PersistentUtilities, Language::Fr).subrange(0, 3) =~= "L3:"@);
    reveal_strlit("L4:Config utilisateur");
    assert(tier_label(WhitelistTier::L4UserConfig, Language::Fr).subrange(0, 3) =~= "L4:"@);
    reveal_strlit("L4:Surcharge CLI");
    assert(tier_label(WhitelistTier::L4CliOverride, Language::Fr).subrange(0, 3) =~= "L4:"@);
    assert(tier_label(WhitelistTier::L4UserConfig, Language::Fr)[3] != tier_label(
        WhitelistTier::L4CliOverride,
        Language::Fr,
    )[3]);
}

proof fn lemma_tier_labels_de()
    ensures
        has_prefix(tier_label(WhitelistTier::L1CoreOs, Language::De), "L1:"@),
        has_prefix(tier_label(WhitelistTier::L2ContextShell, Language::De), "L2:"@),
        has_prefix(tier_label(WhitelistTier::L3PersistentUtilities, Language::De), "L3:"@),
        has_prefix(tier_label(WhitelistTier::L4UserConfig, Language::De), "L4:"@),
        has_prefix(tier_label(WhitelistTier::L4CliOverride, Language::De), "L4:"@),
        tier_label(WhitelistTier::L4UserConfig, Language::De) != tier_label(
            WhitelistTier::L4CliOverride,
            Language::De,
        ),
{
    reveal_strlit("L1:");
    reveal_strlit("L2:");
    reveal_strlit("L3:");
    reveal_strlit("L4:");
    reveal_strlit("L1:Systemkern");
    assert(tier_label(WhitelistTier::L1CoreOs, Language::De).subrange(0, 3) =~= "L1:"@);
    reveal_strlit("L2:Sitzungs-Shell");
    assert(tier_label(WhitelistTier::L2ContextShell, Language::De).subrange(0, 3) =~= "L2:"@);
    reveal_strlit("L3:Dienstprogramme");
    assert(tier_label(WhitelistTier::L3PersistentUtilities, Language::De).subrange(0, 3) =~= "L3:"@);
    reveal_strlit("L4:Benutzerkonfig");
    assert(tier_label(WhitelistTier::L4UserConfig, Language::De).subrange(0, 3) =~= "L4:"@);
    reveal_strlit("L4:CLI-Überschreibung");
    assert(tier_label(WhitelistTier::L4CliOverride, Language::De).subrange(0, 3) =~= "L4:"@);
    assert(tier_label(WhitelistTier::L4UserConfig, Language::De)[3] != tier_label(
        WhitelistTier::L4CliOverride,
        Language::De,
    )[3]);
}

proof fn lemma_tier_labels_es()
    ensures
        has_prefix(tier_label(WhitelistTier::L1CoreOs, Language::Es), "L1:"@),
        has_prefix(tier_label(WhitelistTier::L2ContextShell, Language::Es), "L2:"@),
        has_prefix(tier_label(WhitelistTier::L3PersistentUtilities, Language::Es), "L3:"@),
        has_prefix(tier_label(WhitelistTier::L4UserConfig, Language::Es), "L4:"@),
        has_prefix(tier_label(WhitelistTier::L4CliOverride, Language::Es), "L4:"@),
        tier_label(WhitelistTier::L4UserConfig, Language::Es) != tier_label(
            WhitelistTier::L4CliOverride,
            Language::Es,
        ),
{
    reveal_strlit("L1:");
    reveal_strlit("L2:");
    reveal_strlit("L3:");
    reveal_strlit("L4:");
    reveal_strlit("L1:Núcleo del sistema");
    assert(tier_label(WhitelistTier::L1CoreOs, Language::Es).subrange(0, 3) =~= "L1:"@);
    reveal_strlit("L2:Terminal de sesión");
    assert(tier_label(WhitelistTier::L2ContextShell, Language::Es).subrange(0, 3) =~= "L2:"@);
    reveal_strlit("L3:Utilidades residentes");
    assert(tier_label(WhitelistTier::L3PersistentUtilities, Language::Es).subrange(0, 3) =~= "L3:"@);
    reveal_strlit("L4:Config. de usuario");
    assert(tier_label(WhitelistTier::L4UserConfig, Language::Es).subrange(0, 3) =~= "L4:"@);
    reveal_strlit("L4:Anulación de CLI");
    assert(tier_label(WhitelistTier::L4CliOverride, Language::Es).subrange(0, 3) =~= "L4:"@);
    assert(tier_label(WhitelistTier::L4UserConfig, Language::Es)[3] != tier_label(
        WhitelistTier::L4CliOverride,
        Language::Es,
    )[3]);
}

proof fn lemma_tier_labels_pt()
    ensures
        has_prefix(tier_label(WhitelistTier::L1CoreOs, Language::Pt), "L1:"@),
        has_prefix(tier_label(WhitelistTier::L2ContextShell, Language::Pt), "L2:"@),
        has_prefix(tier_label(WhitelistTier::L3PersistentUtilities, Language::Pt), "L3:"@),
        has_prefix(tier_label(WhitelistTier::L4UserConfig, Language::Pt), "L4:"@),
        has_prefix(tier_label(WhitelistTier::L4CliOverride, Language::Pt), "L4:"@),
        tier_label(WhitelistTier::L4UserConfig, Language::Pt) != tier_label(
            WhitelistTier::L4CliOverride,
            Language::Pt,
        ),
{
    reveal_strlit("L1:");
    reveal_strlit("L2:");
    reveal_strlit("L3:");
    reveal_strlit("L4:");
    reveal_strlit("L1:Núcleo do sistema");
    assert(tier_label(WhitelistTier::L1CoreOs, Language::Pt).subrange(0, 3) =~= "L1:"@);
    reveal_strlit("L2:Terminal de sessão");
    assert(tier_label(WhitelistTier::L2ContextShell, Language::Pt).subrange(0, 3) =~= "L2:"@);
    reveal_strlit("L3:Utilitários residentes");
    assert(tier_label(WhitelistTier::L3PersistentUtilities, Language::Pt).subrange(0, 3) =~= "L3:"@);
    reveal_strlit("L4:Config. do usuário");
    assert(tier_label(WhitelistTier::L4UserConfig, Language::Pt).subrange(0, 3) =~= "L4:"@);
    reveal_strlit("L4:Substituição de CLI");
    assert(tier_label(WhitelistTier::L4CliOverride, Language::Pt).subrange(0, 3) =~= "L4:"@);
    assert(tier_label(WhitelistTier::L4UserConfig, Language::Pt)[3] != tier_label(
        WhitelistTier::L4CliOverride,
        Language::Pt,
    )[3]);
}

proof fn lemma_tier_labels_it()
    ensures
        has_prefix(tier_label(WhitelistTier::L1CoreOs, Language::It), "L1:"@),
        has_prefix(tier_label(WhitelistTier::L2ContextShell, Language::It), "L2:"@),
        has_prefix(tier_label(WhitelistTier::L3PersistentUtilities, Language::It), "L3:"@),
        has_prefix(tier_label(WhitelistTier::L4UserConfig, Language::It), "L4:"@),
        has_prefix(tier_label(WhitelistTier::L4CliOverride, Language::It), "L4:"@),
        tier_label(WhitelistTier::L4UserConfig, Language::It) != tier_label(
            WhitelistTier::L4CliOverride,
            Language::It,
        ),
{
    reveal_strlit("L1:");
    reveal_strlit("L2:");
    reveal_strlit("L3:");
    reveal_strlit("L4:");
    reveal_strlit("L1:Core di sistema");
    assert(tier_label(WhitelistTier::L1CoreOs, Language::It).subrange(0, 3) =~= "L1:"@);
    reveal_strlit("L2:Terminale di sessione");
    assert(tier_label(WhitelistTier::L2ContextShell, Language::It).subrange(0, 3) =~= "L2:"@);
    reveal_strlit("L3:Utilità residenti");
    assert(tier_label(WhitelistTier::L3PersistentUtilities, Language::It).subrange(0, 3) =~= "L3:"@);
    reveal_strlit("L4:Config. utente");
    assert(tier_label(WhitelistTier::L4UserConfig, Language::It).subrange(0, 3) =~= "L4:"@);
    reveal_strlit("L4:Sovrascrittura CLI");
    assert(tier_label(WhitelistTier::L4CliOverride, Language::It).subrange(0, 3) =~= "L4:"@);
    assert(tier_label(WhitelistTier::L4UserConfig, Language::It)[3] != tier_label(
        WhitelistTier::L4CliOverride,
        Language::It,
    )[3]);
}

proof fn lemma_tier_labels_ru()
    ensures
        has_prefix(tier_label(WhitelistTier::L1CoreOs, Language::Ru), "L1:"@),
        has_prefix(tier_label(WhitelistTier::L2ContextShell, Language::Ru), "L2:"@),
        has_prefix(tier_label(WhitelistTier::L3PersistentUtilities, Language::Ru), "L3:"@),
        has_prefix(tier_label(WhitelistTier::L4UserConfig, Language::Ru), "L4:"@),
        has_prefix(tier_label(WhitelistTier::L4CliOverride, Language::Ru), "L4:"@),
        tier_label(WhitelistTier::L4UserConfig, Language::Ru) != tier_label(
            WhitelistTier::L4CliOverride,
            Language::Ru,
        ),
{
    reveal_strlit("L1:");
    reveal_strlit("L2:");
    reveal_strlit("L3:");
    reveal_strlit("L4:");
    reveal_strlit("L1:Ядро системы");
    assert(tier_label(WhitelistTier::L1CoreOs, Language::Ru).subrange(0, 3) =~= "L1:"@);
    reveal_strlit("L2:Терминал сессии");
    assert(tier_label(WhitelistTier::L2ContextShell, Language::Ru).subrange(0, 3) =~= "L2:"@);
    reveal_strlit("L3:Системные утилиты");
    assert(tier_label(WhitelistTier::L3PersistentUtilities, Language::Ru).subrange(0, 3) =~= "L3:"@);
    reveal_strlit("L4:Пользовательская");
    assert(tier_label(WhitelistTier::L4UserConfig, Language::Ru).subrange(0, 3) =~= "L4:"@);
    reveal_strlit("L4:Параметр CLI");
    assert(tier_label(WhitelistTier::L4CliOverride, Language::Ru).subrange(0, 3) =~= "L4:"@);
    assert(tier_label(WhitelistTier::L4UserConfig, Language::Ru)[4] != tier_label(
        WhitelistTier::L4CliOverride,
        Language::Ru,
    )[4]);
}

proof fn lemma_tier_labels_nl()
    ensures
        has_prefix(tier_label(WhitelistTier::L1CoreOs, Language::Nl), "L1:"@),
        has_prefix(tier_label(WhitelistTier::L2ContextShell, Language::Nl), "L2:"@),
        has_prefix(tier_label(WhitelistTier::L3PersistentUtilities, Language::Nl), "L3:"@),
        has_prefix(tier_label(WhitelistTier::L4UserConfig, Language::Nl), "L4:"@),
        has_prefix(tier_label(WhitelistTier::L4CliOverride, Language::Nl), "L4:"@),
        tier_label(WhitelistTier::L4UserConfig, Language::Nl) != tier_label(
            WhitelistTier::L4CliOverride,
            Language::Nl,
        ),
{
    reveal_strlit("L1:");
    reveal_strlit("L2:");
    reveal_strlit("L3:");
    reveal_strlit("L4:");
    reveal_strlit("L1:Systeemkern");
    assert(tier_label(WhitelistTier::L1CoreOs, Language::Nl).subrange(0, 3) =~= "L1:"@);
    reveal_strlit("L2:Context-shell");
    assert(tier_label(WhitelistTier::L2ContextShell, Language::Nl).subrange(0, 3) =~= "L2:"@);
    reveal_strlit("L3:Permanente tools");
    assert(tier_label(WhitelistTier::L3PersistentUtilities, Language::Nl).subrange(0, 3) =~= "L3:"@);
    reveal_strlit("L4:Gebruikersconfig");
    assert(tier_label(WhitelistTier::L4UserConfig, Language::Nl).subrange(0, 3) =~= "L4:"@);
    reveal_strlit("L4:CLI-overschrijving");
    assert(tier_label(WhitelistTier::L4CliOverride, Language::Nl).subrange(0, 3) =~= "L4:"@);
    assert(tier_label(WhitelistTier::L4UserConfig, Language::Nl)[3] != tier_label(
        WhitelistTier::L4CliOverride,
        Language::Nl,
    )[3]);
}

proof fn lemma_tier_labels_pl()
    ensures
        has_prefix(tier_label(WhitelistTier::L1CoreOs, Language::Pl), "L1:"@),
        has_prefix(tier_label(WhitelistTier::L2ContextShell, Language::Pl), "L2:"@),
        has_prefix(tier_label(WhitelistTier::L3PersistentUtilities, Language::Pl), "L3:"@),
        has_prefix(tier_label(WhitelistTier::L4UserConfig, Language::Pl), "L4:"@),
        has_prefix(tier_label(WhitelistTier::L4CliOverride, Language::Pl), "L4:"@),
        tier_label(WhitelistTier::L4UserConfig, Language::Pl) != tier_label(
            WhitelistTier::L4CliOverride,
            Language::Pl,
        ),
{
    reveal_strlit("L1:");
    reveal_strlit("L2:");
    reveal_strlit("L3:");
    reveal_strlit("L4:");
    reveal_strlit("L1:Rdzeń systemu");
    assert(tier_label(WhitelistTier::L1CoreOs, Language::Pl).subrange(0, 3) =~= "L1:"@);
    reveal_strlit("L2:Powłoka sesji");
    assert(tier_label(WhitelistTier::L2ContextShell, Language::Pl).subrange(0, 3) =~= "L2:"@);
    reveal_strlit("L3:Narzędzia rezydentne");
    assert(tier_label(WhitelistTier::L3PersistentUtilities, Language::Pl).subrange(0, 3) =~= "L3:"@);
    reveal_strlit("L4:Konfiguracja użytkownika");
    assert(tier_label(WhitelistTier::L4UserConfig, Language::Pl).subrange(0, 3) =~= "L4:"@);
    reveal_strlit("L4:Nadpisanie CLI");
    assert(tier_label(WhitelistTier::L4CliOverride, Language::Pl).subrange(0, 3) =~= "L4:"@);
    assert(tier_label(WhitelistTier::L4UserConfig, Language::Pl)[3] != tier_label(
        WhitelistTier::L4CliOverride,
        Language::Pl,
    )[3]);
}

proof fn lemma_tier_labels_tr()
    ensures
        has_prefix(tier_label(WhitelistTier::L1CoreOs, Language::Tr), "L1:"@),
        has_prefix(tier_label(WhitelistTier::L2ContextShell, Language::Tr), "L2:"@),
        has_prefix(tier_label(WhitelistTier::L3PersistentUtilities, Language::Tr), "L3:"@),
        has_prefix(tier_label(WhitelistTier::L4UserConfig, Language::Tr), "L4:"@),
        has_prefix(tier_label(WhitelistTier::L4CliOverride, Language::Tr), "L4:"@),
        tier_label(WhitelistTier::L4UserConfig, Language::Tr) != tier_label(
            WhitelistTier::L4CliOverride,
            Language::Tr,
        ),
{
    reveal_strlit("L1:");
    reveal_strlit("L2:");
    reveal_strlit("L3:");
    reveal_strlit("L4:");
    reveal_strlit("L1:Sistem Çekirdeği");
    assert(tier_label(WhitelistTier::L1CoreOs, Language::Tr).subrange(0, 3) =~= "L1:"@);
    reveal_strlit("L2:Oturum Kabuğu");
    assert(tier_label(WhitelistTier::L2ContextShell, Language::Tr).subrange(0, 3) =~= "L2:"@);
    reveal_strlit("L3:Yerleşik Araçlar");
    assert(tier_label(WhitelistTier::L3PersistentUtilities, Language::Tr).subrange(0, 3) =~= "L3:"@);
    reveal_strlit("L4:Kullanıcı Yapılandırması");
    assert(tier_label(WhitelistTier::L4UserConfig, Language::Tr).subrange(0, 3) =~= "L4:"@);
    reveal_strlit("L4:CLI Geçersiz Kılma");
    assert(tier_label(WhitelistTier::L4CliOverride, Language::Tr).subrange(0, 3) =~= "L4:"@);
    assert(tier_label(WhitelistTier::L4UserConfig, Language::Tr)[3] != tier_label(
        WhitelistTier::L4CliOverride,
        Language::Tr,
    )[3]);
}

proof fn lemma_tier_labels_ar()
    ensures
        has_prefix(tier_label(WhitelistTier::L1CoreOs, Language::Ar), "L1:"@),
        has_prefix(tier_label(WhitelistTier::L2ContextShell, Language::Ar), "L2:"@),
        has_prefix(tier_label(WhitelistTier::L3PersistentUtilities, Language::Ar), "L3:"@),
        has_prefix(tier_label(WhitelistTier::L4UserConfig, Language::Ar), "L4:"@),
        has_prefix(tier_label(WhitelistTier::L4CliOverride, Language::Ar), "L4:"@),
        tier_label(WhitelistTier::L4UserConfig, Language::Ar) != tier_label(
            WhitelistTier::L4CliOverride,
            Language::Ar,
        ),
{
    reveal_strlit("L1:");
    reveal_strlit("L2:");
    reveal_strlit("L3:");
    reveal_strlit("L4:");
    reveal_strlit("L1:نواة النظام");
    assert(tier_label(WhitelistTier::L1CoreOs, Language::Ar).subrange(0, 3) =~= "L1:"@);
    reveal_strlit("L2:صدفة الجلسة");
    assert(tier_label(WhitelistTier::L2ContextShell, Language::Ar).subrange(0, 3) =~= "L2:"@);
    reveal_strlit("L3:الأدوات الدائمة");
    assert(tier_label(WhitelistTier::L3PersistentUtilities, Language::Ar).subrange(0, 3) =~= "L3:"@);
    reveal_strlit("L4:تكوين المستخدم");
    assert(tier_label(WhitelistTier::L4UserConfig, Language::Ar).subrange(0, 3) =~= "L4:"@);
    reveal_strlit("L4:تجاوز CLI");
    assert(tier_label(WhitelistTier::L4CliOverride, Language::Ar).subrange(0, 3) =~= "L4:"@);
    assert(tier_label(WhitelistTier::L4UserConfig, Language::Ar)[4] != tier_label(
        WhitelistTier::L4CliOverride,
        Language::Ar,
    )[4]);
}

proof fn lemma_tier_labels_th()
    ensures
        has_prefix(tier_label(WhitelistTier::L1CoreOs, Language::Th), "L1:"@),
        has_prefix(tier_label(WhitelistTier::L2ContextShell, Language::Th), "L2:"@),
        has_prefix(tier_label(WhitelistTier::L3PersistentUtilities, Language::Th), "L3:"@),
        has_prefix(tier_label(WhitelistTier::L4UserConfig, Language::Th), "L4:"@),
        has_prefix(tier_label(WhitelistTier::L4CliOverride, Language::Th), "L4:"@),
        tier_label(WhitelistTier::L4UserConfig, Language::Th) != tier_label(
            WhitelistTier::L4CliOverride,
            Language::Th,
        ),
{
    reveal_strlit("L1:");
    reveal_strlit("L2:");
    reveal_strlit("L3:");
    reveal_strlit("L4:");
    reveal_strlit("L1:แกนระบบ");
    assert(tier_label(WhitelistTier::L1CoreOs, Language::Th).subrange(0, 3) =~= "L1:"@);
    reveal_strlit("L2:เชลล์เซสชัน");
    assert(tier_label(WhitelistTier::L2ContextShell, Language::Th).subrange(0, 3) =~= "L2:"@);
    reveal_strlit("L3:ยูทิลิตี้ประจำ");
    assert(tier_label(WhitelistTier::L3PersistentUtilities, Language::Th).subrange(0, 3) =~= "L3:"@);
    reveal_strlit("L4:การกำหนดค่าผู้ใช้");
    assert(tier_label(WhitelistTier::L4UserConfig, Language::Th).subrange(0, 3) =~= "L4:"@);
    reveal_strlit("L4:การแทนที่ CLI");
    assert(tier_label(WhitelistTier::L4CliOverride, Language::Th).subrange(0, 3) =~= "L4:"@);
    assert(tier_label(WhitelistTier::L4UserConfig, Language::Th)[6] != tier_label(
        WhitelistTier::L4CliOverride,
        Language::Th,
    )[6]);
}

proof fn lemma_tier_labels_vi()
    ensures
        has_prefix(tier_label(WhitelistTier::L1CoreOs, Language::Vi), "L1:"@),
        has_prefix(tier_label(WhitelistTier::L2ContextShell, Language::Vi), "L2:"@),
        has_prefix(tier_label(WhitelistTier::L3PersistentUtilities, Language::Vi), "L3:"@),
        has_prefix(tier_label(WhitelistTier::L4UserConfig, Language::Vi), "L4:"@),
        has_prefix(tier_label(WhitelistTier::L4CliOverride, Language::Vi), "L4:"@),
        tier_label(WhitelistTier::L4UserConfig, Language::Vi) != tier_label(
            WhitelistTier::L4CliOverride,
            Language::Vi,
        ),
{
    reveal_strlit("L1:");
    reveal_strlit("L2:");
    reveal_strlit("L3:");
    reveal_strlit("L4:");
    reveal_strlit("L1:Cốt lõi hệ thống");
    assert(tier_label(WhitelistTier::L1CoreOs, Language::Vi).subrange(0, 3) =~= "L1:"@);
    reveal_strlit("L2:Phiên làm việc");
    assert(tier_label(WhitelistTier::L2ContextShell, Language::Vi).subrange(0, 3) =~= "L2:"@);
    reveal_strlit("L3:Tiện ích thường trú");
    assert(tier_label(WhitelistTier::L3PersistentUtilities, Language::Vi).subrange(0, 3) =~= "L3:"@);
    reveal_strlit("L4:Cấu hình người dùng");
    assert(tier_label(WhitelistTier::L4UserConfig, Language::Vi).subrange(0, 3) =~= "L4:"@);
    reveal_strlit("L4:Ghi đè CLI");
    assert(tier_label(WhitelistTier::L4CliOverride, Language::Vi).subrange(0, 3) =~= "L4:"@);
    assert(tier_label(WhitelistTier::L4UserConfig, Language::Vi)[3] != tier_label(
        WhitelistTier::L4CliOverride,
        Language::Vi,
    )[3]);
}

proof fn lemma_tier_labels_id()
    ensures
        has_prefix(tier_label(WhitelistTier::L1CoreOs, Language::Id), "L1:"@),
        has_prefix(tier_label(WhitelistTier::L2ContextShell, Language::Id), "L2:"@),
        has_prefix(tier_label(WhitelistTier::L3PersistentUtilities, Language::Id), "L3:"@),
        has_prefix(tier_label(WhitelistTier::L4UserConfig, Language::Id), "L4:"@),
        has_prefix(tier_label(WhitelistTier::L4CliOverride, Language::Id), "L4:"@),
        tier_label(WhitelistTier::L4UserConfig, Language::Id) != tier_label(
            WhitelistTier::L4CliOverride,
            Language::Id,
        ),
{
    reveal_strlit("L1:");
    reveal_strlit("L2:");
    reveal_strlit("L3:");
    reveal_strlit("L4:");
    reveal_strlit("L1:Inti Sistem");
    assert(tier_label(WhitelistTier::L1CoreOs, Language::Id).subrange(0, 3) =~= "L1:"@);
    reveal_strlit("L2:Shell Konteks");
    assert(tier_label(WhitelistTier::L2ContextShell, Language::Id).subrange(0, 3) =~= "L2:"@);
    reveal_strlit("L3:Utilitas Residen");
    assert(tier_label(WhitelistTier::L3PersistentUtilities, Language::Id).subrange(0, 3) =~= "L3:"@);
    reveal_strlit("L4:Konfigurasi Pengguna");
    assert(tier_label(WhitelistTier::L4UserConfig, Language::Id).subrange(0, 3) =~= "L4:"@);
    reveal_strlit("L4:Penggantian CLI");
    assert(tier_label(WhitelistTier::L4CliOverride, Language::Id).subrange(0, 3) =~= "L4:"@);
    assert(tier_label(WhitelistTier::L4UserConfig, Language::Id)[3] != tier_label(
        WhitelistTier::L4CliOverride,
        Language::Id,
    )[3]);
}

proof fn lemma_tier_labels_sv()
    ensures
        has_prefix(tier_label(WhitelistTier::L1CoreOs, Language::Sv), "L1:"@),
        has_prefix(tier_label(WhitelistTier::L2ContextShell, Language::Sv), "L2:"@),
        has_prefix(tier_label(WhitelistTier::L3PersistentUtilities, Language::Sv), "L3:"@),
        has_prefix(tier_label(WhitelistTier::L4UserConfig, Language::Sv), "L4:"@),
        has_prefix(tier_label(WhitelistTier::L4CliOverride, Language::Sv), "L4:"@),
        tier_label(WhitelistTier::L4UserConfig, Language::Sv) != tier_label(
            WhitelistTier::L4CliOverride,
            Language::Sv,
        ),
{
    reveal_strlit("L1:");
    reveal_strlit("L2:");
    reveal_strlit("L3:");
    reveal_strlit("L4:");
    reveal_strlit("L1:Systemkärna");
    assert(tier_label(WhitelistTier::L1CoreOs, Language::Sv).subrange(0, 3) =~= "L1:"@);
    reveal_strlit("L2:Kontextskal");
    assert(tier_label(WhitelistTier::L2ContextShell, Language::Sv).subrange(0, 3) =~= "L2:"@);
    reveal_strlit("L3:Residenta verktyg");
    assert(tier_label(WhitelistTier::L3PersistentUtilities, Language::Sv).subrange(0, 3) =~= "L3:"@);
    reveal_strlit("L4:Användarkonfig");
    assert(tier_label(WhitelistTier::L4UserConfig, Language::Sv).subrange(0, 3) =~= "L4:"@);
    reveal_strlit("L4:CLI-undantag");
    assert(tier_label(WhitelistTier::L4CliOverride, Language::Sv).subrange(0, 3) =~= "L4:"@);
    assert(tier_label(WhitelistTier::L4UserConfig, Language::Sv)[3] != tier_label(
        WhitelistTier::L4CliOverride,
        Language::Sv,
    )[3]);
}

proof fn lemma_tier_labels_da()
    ensures
        has_prefix(tier_label(WhitelistTier::L1CoreOs, Language::Da), "L1:"@),
        has_prefix(tier_label(WhitelistTier::L2ContextShell, Language::Da), "L2:"@),
        has_prefix(tier_label(WhitelistTier::L3PersistentUtilities, Language::Da), "L3:"@),
        has_prefix(tier_label(WhitelistTier::L4UserConfig, Language::Da), "L4:"@),
        has_prefix(tier_label(WhitelistTier::L4CliOverride, Language::Da), "L4:"@),
        tier_label(WhitelistTier::L4UserConfig, Language::Da) != tier_label(
            WhitelistTier::L4CliOverride,
            Language::Da,
        ),
{
    reveal_strlit("L1:");
    reveal_strlit("L2:");
    reveal_strlit("L3:");
    reveal_strlit("L4:");
    reveal_strlit("L1:Systemkerne");
    assert(tier_label(WhitelistTier::L1CoreOs, Language::Da).subrange(0, 3) =~= "L1:"@);
    reveal_strlit("L2:Kontext-shell");
    assert(tier_label(WhitelistTier::L2ContextShell, Language::Da).subrange(0, 3) =~= "L2:"@);
    reveal_strlit("L3:Permanente hjælpeprogrammer");
    assert(tier_label(WhitelistTier::L3PersistentUtilities, Language::Da).subrange(0, 3) =~= "L3:"@);
    reveal_strlit("L4:Brugerkonfiguration");
    assert(tier_label(WhitelistTier::L4UserConfig, Language::Da).subrange(0, 3) =~= "L4:"@);
    reveal_strlit("L4:CLI-tilsidesættelse");
    assert(tier_label(WhitelistTier::L4CliOverride, Language::Da).subrange(0, 3) =~= "L4:"@);
    assert(tier_label(WhitelistTier::L4UserConfig, Language::Da)[3] != tier_label(
        WhitelistTier::L4CliOverride,
        Language::Da,
    )[3]);
}

proof fn lemma_tier_labels_nb()
    ensures
        has_prefix(tier_label(WhitelistTier::L1CoreOs, Language::Nb), "L1:"@),
        has_prefix(tier_label(WhitelistTier::L2ContextShell, Language::Nb), "L2:"@),
        has_prefix(tier_label(WhitelistTier::L3PersistentUtilities, Language::Nb), "L3:"@),
        has_prefix(tier_label(WhitelistTier::L4UserConfig, Language::Nb), "L4:"@),
        has_prefix(tier_label(WhitelistTier::L4CliOverride, Language::Nb), "L4:"@),
        tier_label(WhitelistTier::L4UserConfig, Language::Nb) != tier_label(
            WhitelistTier::L4CliOverride,
            Language::Nb,
        ),
{
    reveal_strlit("L1:");
    reveal_strlit("L2:");
    reveal_strlit("L3:");
    reveal_strlit("L4:");
    reveal_strlit("L1:Systemkjerne");
    assert(tier_label(WhitelistTier::L1CoreOs, Language::Nb).subrange(0, 3) =~= "L1:"@);
    reveal_strlit("L2:Kontekst-skall");
    assert(tier_label(WhitelistTier::L2ContextShell, Language::Nb).subrange(0, 3) =~= "L2:"@);
    reveal_strlit("L3:Faste verktøy");
    assert(tier_label(WhitelistTier::L3PersistentUtilities, Language::Nb).subrange(0, 3) =~= "L3:"@);
    reveal_strlit("L4:Brukerkonfig");
    assert(tier_label(WhitelistTier::L4UserConfig, Language::Nb).subrange(0, 3) =~= "L4:"@);
    reveal_strlit("L4:CLI-overstyring");
    assert(tier_label(WhitelistTier::L4CliOverride, Language::Nb).subrange(0, 3) =~= "L4:"@);
    assert(tier_label(WhitelistTier::L4UserConfig, Language::Nb)[3] != tier_label(
        WhitelistTier::L4CliOverride,
        Language::Nb,
    )[3]);
}

proof fn lemma_tier_labels_fi()
    ensures
        has_prefix(tier_label(WhitelistTier::L1CoreOs, Language::Fi), "L1:"@),
        has_prefix(tier_label(WhitelistTier::L2ContextShell, Language::Fi), "L2:"@),
        has_prefix(tier_label(WhitelistTier::L3PersistentUtilities, Language::Fi), "L3:"@),
        has_prefix(tier_label(WhitelistTier::L4UserConfig, Language::Fi), "L4:"@),
        has_prefix(tier_label(WhitelistTier::L4CliOverride, Language::Fi), "L4:"@),
        tier_label(WhitelistTier::L4UserConfig, Language::Fi) != tier_label(
            WhitelistTier::L4CliOverride,
            Language::Fi,
        ),
{
    reveal_strlit("L1:");
    reveal_strlit("L2:");
    reveal_strlit("L3:");
    reveal_strlit("L4:");
    reveal_strlit("L1:Järjestelmäydin");
    assert(tier_label(WhitelistTier::L1CoreOs, Language::Fi).subrange(0, 3) =~= "L1:"@);
    reveal_strlit("L2:Kontekstikuori");
    assert(tier_label(WhitelistTier::L2ContextShell, Language::Fi).subrange(0, 3) =~= "L2:"@);
    reveal_strlit("L3:Pysyvät apuohjelmat");
    assert(tier_label(WhitelistTier::L3PersistentUtilities, Language::Fi).subrange(0, 3) =~= "L3:"@);
    reveal_strlit("L4:Käyttäjäasetukset");
    assert(tier_label(WhitelistTier::L4UserConfig, Language::Fi).subrange(0, 3) =~= "L4:"@);
    reveal_strlit("L4:CLI-ohitus");
    assert(tier_label(WhitelistTier::L4CliOverride, Language::Fi).subrange(0, 3) =~= "L4:"@);
    assert(tier_label(WhitelistTier::L4UserConfig, Language::Fi)[3] != tier_label(
        WhitelistTier::L4CliOverride,
        Language::Fi,
    )[3]);
}

proof fn lemma_tier_labels_cs()
    ensures
        has_prefix(tier_label(WhitelistTier::L1CoreOs, Language::Cs), "L1:"@),
        has_prefix(tier_label(WhitelistTier::L2ContextShell, Language::Cs), "L2:"@),
        has_prefix(tier_label(WhitelistTier::L3PersistentUtilities, Language::Cs), "L3:"@),
        has_prefix(tier_label(WhitelistTier::L4UserConfig, Language::Cs), "L4:"@),
        has_prefix(tier_label(WhitelistTier::L4CliOverride, Language::Cs), "L4:"@),
        tier_label(WhitelistTier::L4UserConfig, Language::Cs) != tier_label(
            WhitelistTier::L4CliOverride,
            Language::Cs,
        ),
{
    reveal_strlit("L1:");
    reveal_strlit("L2:");
    reveal_strlit("L3:");
    reveal_strlit("L4:");
    reveal_strlit("L1:Jádro systému");
    assert(tier_label(WhitelistTier::L1CoreOs, Language::Cs).subrange(0, 3) =~= "L1:"@);
    reveal_strlit("L2:Kontextový shell");
    assert(tier_label(WhitelistTier::L2ContextShell, Language::Cs).subrange(0, 3) =~= "L2:"@);
    reveal_strlit("L3:Rezidentní nástroje");
    assert(tier_label(WhitelistTier::L3PersistentUtilities, Language::Cs).subrange(0, 3) =~= "L3:"@);
    reveal_strlit("L4:Uživatelská konfigurace");
    assert(tier_label(WhitelistTier::L4UserConfig, Language::Cs).subrange(0, 3) =~= "L4:"@);
    reveal_strlit("L4:Přepsání CLI");
    assert(tier_label(WhitelistTier::L4CliOverride, Language::Cs).subrange(0, 3) =~= "L4:"@);
    assert(tier_label(WhitelistTier::L4UserConfig, Language::Cs)[3] != tier_label(
        WhitelistTier::L4CliOverride,
        Language::Cs,
    )[3]);
}

proof fn lemma_tier_labels_uk()
    ensures
        has_prefix(tier_label(WhitelistTier::L1CoreOs, Language::Uk), "L1:"@),
        has_prefix(tier_label(WhitelistTier::L2ContextShell, Language::Uk), "L2:"@),
        has_prefix(tier_label(WhitelistTier::L3PersistentUtilities, Language::Uk), "L3:"@),
        has_prefix(tier_label(WhitelistTier::L4UserConfig, Language::Uk), "L4:"@),
        has_prefix(tier_label(WhitelistTier::L4CliOverride, Language::Uk), "L4:"@),
        tier_label(WhitelistTier::L4UserConfig, Language::Uk) != tier_label(
            WhitelistTier::L4CliOverride,
            Language::Uk,
        ),
{
    reveal_strlit("L1:");
    reveal_strlit("L2:");
    reveal_strlit("L3:");
    reveal_strlit("L4:");
    reveal_strlit("L1:Ядро системи");
    assert(tier_label(WhitelistTier::L1CoreOs, Language::Uk).subrange(0, 3) =~= "L1:"@);
    reveal_strlit("L2:Термінал сесії");
    assert(tier_label(WhitelistTier::L2ContextShell, Language::Uk).subrange(0, 3) =~= "L2:"@);
    reveal_strlit("L3:Системні утиліти");
    assert(tier_label(WhitelistTier::L3PersistentUtilities, Language::Uk).subrange(0, 3) =~= "L3:"@);
    reveal_strlit("L4:Конфігурація користувача");
    assert(tier_label(WhitelistTier::L4UserConfig, Language::Uk).subrange(0, 3) =~= "L4:"@);
    reveal_strlit("L4:Перевизначення CLI");
    assert(tier_label(WhitelistTier::L4CliOverride, Language::Uk).subrange(0, 3) =~= "L4:"@);
    assert(tier_label(WhitelistTier::L4UserConfig, Language::Uk)[3] != tier_label(
        WhitelistTier::L4CliOverride,
        Language::Uk,
    )[3]);
}

/// Every locale family is read by its prefix, whatever follows it: a
/// lower-cased identifier starting with "zh-hant", "zh-tw", "zh-hk",
/// "zh-mo" or "zh-cht" reads as Traditional Chinese, one starting with
/// "zh-hans" or "zh-cn" as Simplified Chinese, "nb" or "no" as Norwegian,
/// and one starting with any other language's code as that language. For an
/// ASCII remainder the same holds of `from_locale_str`.
pub proof fn lemma_locale_families(rest: Seq<char>)
    ensures
        locale_language("zh-hant"@ + rest) == Language::ZhHant,
        locale_language("zh-tw"@ + rest) == Language::ZhHant,
        locale_language("zh-hk"@ + rest) == Language::ZhHant,
        locale_language("zh-mo"@ + rest) == Language::ZhHant,
        locale_language("zh-cht"@ + rest) == Language::ZhHant,
        locale_language("zh-hans"@ + rest) == Language::ZhHans,
        locale_language("zh-cn"@ + rest) == Language::ZhHans,
        locale_language("ja"@ + rest) == Language::Ja,
        locale_language("ko"@ + rest) == Language::Ko,
        locale_language("fr"@ + rest) == Language::Fr,
        locale_language("de"@ + rest) == Language::De,
        locale_language("es"@ + rest) == Language::Es,
        locale_language("pt"@ + rest) == Language::Pt,
        locale_language("it"@ + rest) == Language::It,
        locale_language("ru"@ + rest) == Language::Ru,
        locale_language("nl"@ + rest) == Language::Nl,
        locale_language("pl"@ + rest) == Language::Pl,
        locale_language("tr"@ + rest) == Language::Tr,
        locale_language("ar"@ + rest) == Language::Ar,
        locale_language("th"@ + rest) == Language::Th,
        locale_language("vi"@ + rest) == Language::Vi,
        locale_language("id"@ + rest) == Language::Id,
        locale_language("sv"@ + rest) == Language::Sv,
        locale_language("da"@ + rest) == Language::Da,
        locale_language("nb"@ + rest) == Language::Nb,
        locale_language("no"@ + rest) == Language::Nb,
        locale_language("fi"@ + rest) == Language::Fi,
        locale_language("cs"@ + rest) == Language::Cs,
        locale_language("uk"@ + rest) == Language::Uk,
        all_ascii(rest) ==> locale_str_language("zh-hant"@ + rest) == Language::ZhHant,
        all_ascii(rest) ==> locale_str_language("zh-tw"@ + rest) == Language::ZhHant,
        all_ascii(rest) ==> locale_str_language("zh-hk"@ + rest) == Language::ZhHant,
        all_ascii(rest) ==> locale_str_language("zh-mo"@ + rest) == Language::ZhHant,
        all_ascii(rest) ==> locale_str_language("zh-cht"@ + rest) == Language::ZhHant,
        all_ascii(rest) ==> locale_str_language("zh-hans"@ + rest) == Language::ZhHans,
        all_ascii(rest) ==> locale_str_language("zh-cn"@ + rest) == Language::ZhHans,
        all_ascii(rest) ==> locale_str_language("ja"@ + rest) == Language::Ja,
        all_ascii(rest) ==> locale_str_language("ko"@ + rest) == Language::Ko,
        all_ascii(rest) ==> locale_str_language("fr"@ + rest) == Language::Fr,
        all_ascii(rest) ==> locale_str_language("de"@ + rest) == Language::De,
        all_ascii(rest) ==> locale_str_language("es"@ + rest) == Language::Es,
        all_ascii(rest) ==> locale_str_language("pt"@ + rest) == Language::Pt,
        all_ascii(rest) ==> locale_str_language("it"@ + rest) == Language::It,
        all_ascii(rest) ==> locale_str_language("ru"@ + rest) == Language::Ru,
        all_ascii(rest) ==> locale_str_language("nl"@ + rest) == Language::Nl,
        all_ascii(rest) ==> locale_str_language("pl"@ + rest) == Language::Pl,
        all_ascii(rest) ==> locale_str_language("tr"@ + rest) == Language::Tr,
        all_ascii(rest) ==> locale_str_language("ar"@ + rest) == Language::Ar,
        all_ascii(rest) ==> locale_str_language("th"@ + rest) == Language::Th,
        all_ascii(rest) ==> locale_str_language("vi"@ + rest) == Language::Vi,
        all_ascii(rest) ==> locale_str_language("id"@ + rest) == Language::Id,
        all_ascii(rest) ==> locale_str_language("sv"@ + rest) == Language::Sv,
        all_ascii(rest) ==> locale_str_language("da"@ + rest) == Language::Da,
        all_ascii(rest) ==> locale_str_language("nb"@ + rest) == Language::Nb,
        all_ascii(rest) ==> locale_str_language("no"@ + rest) == Language::Nb,
        all_ascii(rest) ==> locale_str_language("fi"@ + rest) == Language::Fi,
        all_ascii(rest) ==> locale_str_language("cs"@ + rest) == Language::Cs,
        all_ascii(rest) ==> locale_str_language("uk"@ + rest) == Language::Uk,
{
    lemma_family_zh_hant(rest);
    lemma_family_zh_tw(rest);
    lemma_family_zh_hk(rest);
    lemma_family_zh_mo(rest);
    lemma_family_zh_cht(rest);
    lemma_family_zh_hans(rest);
    lemma_family_zh_cn(rest);
    lemma_family_ja(rest);
    lemma_family_ko(rest);
    lemma_family_fr(rest);
    lemma_family_de(rest);
    lemma_family_es(rest);
    lemma_family_pt(rest);
    lemma_family_it(rest);
    lemma_family_ru(rest);
    lemma_family_nl(rest);
    lemma_family_pl(rest);
    lemma_family_tr(rest);
    lemma_family_ar(rest);
    lemma_family_th(rest);
    lemma_family_vi(rest);
    lemma_family_id(rest);
    lemma_family_sv(rest);
    lemma_family_da(rest);
    lemma_family_nb(rest);
    lemma_family_no(rest);
    lemma_family_fi(rest);
    lemma_family_cs(rest);
    lemma_family_uk(rest);
}

proof fn lemma_family_zh_hant(rest: Seq<char>)
    ensures
        locale_language("zh-hant"@ + rest) == Language::ZhHant,
        all_ascii(rest) ==> locale_str_language("zh-hant"@ + rest) == Language::ZhHant,
{
    reveal_strlit("zh-hant");
    let q = "zh-hant"@;
    let n = dash_normalized(q + rest);
    assert(n.subrange(0, q.len() as int) =~= q);
    assert(all_ascii(q));
    assert(ascii_lowercase(q) =~= q);
    if all_ascii(rest) {
        assert(all_ascii(q + rest));
        lemma_ascii_locale(q + rest);
        let m = ascii_lowercase(rest);
        assert(ascii_lowercase(q + rest) =~= q + m);
        let n2 = dash_normalized(q + m);
        assert(n2.subrange(0, q.len() as int) =~= q);
    }
}

proof fn lemma_family_zh_tw(rest: Seq<char>)
    ensures
        locale_language("zh-tw"@ + rest) == Language::ZhHant,
        all_ascii(rest) ==> locale_str_language("zh-tw"@ + rest) == Language::ZhHant,
{
    reveal_strlit("zh-tw");
    let q = "zh-tw"@;
    let n = dash_normalized(q + rest);
    assert(n.subrange(0, q.len() as int) =~= q);
    assert(all_ascii(q));
    assert(ascii_lowercase(q) =~= q);
    if all_ascii(rest) {
        assert(all_ascii(q + rest));
        lemma_ascii_locale(q + rest);
        let m = ascii_lowercase(rest);
        assert(ascii_lowercase(q + rest) =~= q + m);
        let n2 = dash_normalized(q + m);
        assert(n2.subrange(0, q.len() as int) =~= q);
    }
}

proof fn lemma_family_zh_hk(rest: Seq<char>)
    ensures
        locale_language("zh-hk"@ + rest) == Language::ZhHant,
        all_ascii(rest) ==> locale_str_language("zh-hk"@ + rest) == Language::ZhHant,
{
    reveal_strlit("zh-hk");
    let q = "zh-hk"@;
    let n = dash_normalized(q + rest);
    assert(n.subrange(0, q.len() as int) =~= q);
    assert(all_ascii(q));
    assert(ascii_lowercase(q) =~= q);
    if all_ascii(rest) {
        assert(all_ascii(q + rest));
        lemma_ascii_locale(q + rest);
        let m = ascii_lowercase(rest);
        assert(ascii_lowercase(q + rest) =~= q + m);
        let n2 = dash_normalized(q + m);
        assert(n2.subrange(0, q.len() as int) =~= q);
    }
}

proof fn lemma_family_zh_mo(rest: Seq<char>)
    ensures
        locale_language("zh-mo"@ + rest) == Language::ZhHant,
        all_ascii(rest) ==> locale_str_language("zh-mo"@ + rest) == Language::ZhHant,
{
    reveal_strlit("zh-mo");
    let q = "zh-mo"@;
    let n = dash_normalized(q + rest);
    assert(n.subrange(0, q.len() as int) =~= q);
    assert(all_ascii(q));
    assert(ascii_lowercase(q) =~= q);
    if all_ascii(rest) {
        assert(all_ascii(q + rest));
        lemma_ascii_locale(q + rest);
        let m = ascii_lowercase(rest);
        assert(ascii_lowercase(q + rest) =~= q + m);
        let n2 = dash_normalized(q + m);
        assert(n2.subrange(0, q.len() as int) =~= q);
    }
}

proof fn lemma_family_zh_cht(rest: Seq<char>)
    ensures
        locale_language("zh-cht"@ + rest) == Language::ZhHant,
        all_ascii(rest) ==> locale_str_language("zh-cht"@ + rest) == Language::ZhHant,
{
    reveal_strlit("zh-cht");
    let q = "zh-cht"@;
    let n = dash_normalized(q + rest);
    assert(n.subrange(0, q.len() as int) =~= q);
    assert(all_ascii(q));
    assert(ascii_lowercase(q) =~= q);
    if all_ascii(rest) {
        assert(all_ascii(q + rest));
        lemma_ascii_locale(q + rest);
        let m = ascii_lowercase(rest);
        assert(ascii_lowercase(q + rest) =~= q + m);
        let n2 = dash_normalized(q + m);
        assert(n2.subrange(0, q.len() as int) =~= q);
    }
}

proof fn lemma_family_zh_hans(rest: Seq<char>)
    ensures
        locale_language("zh-hans"@ + rest) == Language::ZhHans,
        all_ascii(rest) ==> locale_str_language("zh-hans"@ + rest) == Language::ZhHans,
{
    reveal_strlit("zh-hans");
    let q = "zh-hans"@;
    let n = dash_normalized(q + rest);
    assert(n.subrange(0, q.len() as int) =~= q);
    reveal_strlit("zh");
    assert(n.subrange(0, 2) =~= "zh"@);
    reveal_strlit("zh-hant");
    assert(n[6] == q[6]);
    lemma_not_prefix_at(n, "zh-hant"@, 6);
    reveal_strlit("zh-tw");
    assert(n[3] == q[3]);
    lemma_not_prefix_at(n, "zh-tw"@, 3);
    reveal_strlit("zh-hk");
    assert(n[4] == q[4]);
    lemma_not_prefix_at(n, "zh-hk"@, 4);
    reveal_strlit("zh-mo");
    assert(n[3] == q[3]);
    lemma_not_prefix_at(n, "zh-mo"@, 3);
    reveal_strlit("zh-cht");
    assert(n[3] == q[3]);
    lemma_not_prefix_at(n, "zh-cht"@, 3);
    assert(all_ascii(q));
    assert(ascii_lowercase(q) =~= q);
    if all_ascii(rest) {
        assert(all_ascii(q + rest));
        lemma_ascii_locale(q + rest);
        let m = ascii_lowercase(rest);
        assert(ascii_lowercase(q + rest) =~= q + m);
        let n2 = dash_normalized(q + m);
        assert(n2.subrange(0, q.len() as int) =~= q);
        assert(n2.subrange(0, 2) =~= "zh"@);
        assert(n2[6] == q[6]);
        lemma_not_prefix_at(n2, "zh-hant"@, 6);
        assert(n2[3] == q[3]);
        lemma_not_prefix_at(n2, "zh-tw"@, 3);
        assert(n2[4] == q[4]);
        lemma_not_prefix_at(n2, "zh-hk"@, 4);
        assert(n2[3] == q[3]);
        lemma_not_prefix_at(n2, "zh-mo"@, 3);
        assert(n2[3] == q[3]);
        lemma_not_prefix_at(n2, "zh-cht"@, 3);
    }
}

proof fn lemma_family_zh_cn(rest: Seq<char>)
    ensures
        locale_language("zh-cn"@ + rest) == Language::ZhHans,
        all_ascii(rest) ==> locale_str_language("zh-cn"@ + rest) == Language::ZhHans,
{
    reveal_strlit("zh-cn");
    let q = "zh-cn"@;
    let n = dash_normalized(q + rest);
    assert(n.subrange(0, q.len() as int) =~= q);
    reveal_strlit("zh");
    assert(n.subrange(0, 2) =~= "zh"@);
    reveal_strlit("zh-hant");
    assert(n[3] == q[3]);
    lemma_not_prefix_at(n, "zh-hant"@, 3);
    reveal_strlit("zh-tw");
    assert(n[3] == q[3]);
    lemma_not_prefix_at(n, "zh-tw"@, 3);
    reveal_strlit("zh-hk");
    assert(n[3] == q[3]);
    lemma_not_prefix_at(n, "zh-hk"@, 3);
    reveal_strlit("zh-mo");
    assert(n[3] == q[3]);
    lemma_not_prefix_at(n, "zh-mo"@, 3);
    reveal_strlit("zh-cht");
    assert(n[4] == q[4]);
    lemma_not_prefix_at(n, "zh-cht"@, 4);
    assert(all_ascii(q));
    assert(ascii_lowercase(q) =~= q);
    if all_ascii(rest) {
        assert(all_ascii(q + rest));
        lemma_ascii_locale(q + rest);
        let m = ascii_lowercase(rest);
        assert(ascii_lowercase(q + rest) =~= q + m);
        let n2 = dash_normalized(q + m);
        assert(n2.subrange(0, q.len() as int) =~= q);
        assert(n2.subrange(0, 2) =~= "zh"@);
        assert(n2[3] == q[3]);
        lemma_not_prefix_at(n2, "zh-hant"@, 3);
        assert(n2[3] == q[3]);
        lemma_not_prefix_at(n2, "zh-tw"@, 3);
        assert(n2[3] == q[3]);
        lemma_not_prefix_at(n2, "zh-hk"@, 3);
        assert(n2[3] == q[3]);
        lemma_not_prefix_at(n2, "zh-mo"@, 3);
        assert(n2[4] == q[4]);
        lemma_not_prefix_at(n2, "zh-cht"@, 4);
    }
}

proof fn lemma_family_ja(rest: Seq<char>)
    ensures
        locale_language("ja"@ + rest) == Language::Ja,
        all_ascii(rest) ==> locale_str_language("ja"@ + rest) == Language::Ja,
{
    reveal_strlit("ja");
    let q = "ja"@;
    let n = dash_normalized(q + rest);
    assert(n.subrange(0, q.len() as int) =~= q);
    reveal_strlit("zh-hant");
    assert(n[0] == q[0]);
    lemma_not_prefix_at(n, "zh-hant"@, 0);
    reveal_strlit("zh-tw");
    assert(n[0] == q[0]);
    lemma_not_prefix_at(n, "zh-tw"@, 0);
    reveal_strlit("zh-hk");
    assert(n[0] == q[0]);
    lemma_not_prefix_at(n, "zh-hk"@, 0);
    reveal_strlit("zh-mo");
    assert(n[0] == q[0]);
    lemma_not_prefix_at(n, "zh-mo"@, 0);
    reveal_strlit("zh-cht");
    assert(n[0] == q[0]);
    lemma_not_prefix_at(n, "zh-cht"@, 0);
    reveal_strlit("zh");
    assert(n[0] == q[0]);
    lemma_not_prefix_at(n, "zh"@, 0);
    assert(all_ascii(q));
    assert(ascii_lowercase(q) =~= q);
    if all_ascii(rest) {
        assert(all_ascii(q + rest));
        lemma_ascii_locale(q + rest);
        let m = ascii_lowercase(rest);
        assert(ascii_lowercase(q + rest) =~= q + m);
        let n2 = dash_normalized(q + m);
        assert(n2.subrange(0, q.len() as int) =~= q);
        assert(n2[0] == q[0]);
        lemma_not_prefix_at(n2, "zh-hant"@, 0);
        assert(n2[0] == q[0]);
        lemma_not_prefix_at(n2, "zh-tw"@, 0);
        assert(n2[0] == q[0]);
        lemma_not_prefix_at(n2, "zh-hk"@, 0);
        assert(n2[0] == q[0]);
        lemma_not_prefix_at(n2, "zh-mo"@, 0);
        assert(n2[0] == q[0]);
        lemma_not_prefix_at(n2, "zh-cht"@, 0);
        assert(n2[0] == q[0]);
        lemma_not_prefix_at(n2, "zh"@, 0);
    }
}

proof fn lemma_family_ko(rest: Seq<char>)
    ensures
        locale_language("ko"@ + rest) == Language::Ko,
        all_ascii(rest) ==> locale_str_language("ko"@ + rest) == Language::Ko,
{
    reveal_strlit("ko");
    let q = "ko"@;
    let n = dash_normalized(q + rest);
    assert(n.subrange(0, q.len() as int) =~= q);
    reveal_strlit("zh-hant");
    assert(n[0] == q[0]);
    lemma_not_prefix_at(n, "zh-hant"@, 0);
    reveal_strlit("zh-tw");
    assert(n[0] == q[0]);
    lemma_not_prefix_at(n, "zh-tw"@, 0);
    reveal_strlit("zh-hk");
    assert(n[0] == q[0]);
    lemma_not_prefix_at(n, "zh-hk"@, 0);
    reveal_strlit("zh-mo");
    assert(n[0] == q[0]);
    lemma_not_prefix_at(n, "zh-mo"@, 0);
    reveal_strlit("zh-cht");
    assert(n[0] == q[0]);
    lemma_not_prefix_at(n, "zh-cht"@, 0);
    reveal_strlit("zh");
    assert(n[0] == q[0]);
    lemma_not_prefix_at(n, "zh"@, 0);
    reveal_strlit("ja");
    assert(n[0] == q[0]);
    lemma_not_prefix_at(n, "ja"@, 0);
    assert(all_ascii(q));
    assert(ascii_lowercase(q) =~= q);
    if all_ascii(rest) {
        assert(all_ascii(q + rest));
        lemma_ascii_locale(q + rest);
        let m = ascii_lowercase(rest);
        assert(ascii_lowercase(q + rest) =~= q + m);
        let n2 = dash_normalized(q + m);
        assert(n2.subrange(0, q.len() as int) =~= q);
        assert(n2[0] == q[0]);
        lemma_not_prefix_at(n2, "zh-hant"@, 0);
        assert(n2[0] == q[0]);
        lemma_not_prefix_at(n2, "zh-tw"@, 0);
        assert(n2[0] == q[0]);
        lemma_not_prefix_at(n2, "zh-hk"@, 0);
        assert(n2[0] == q[0]);
        lemma_not_prefix_at(n2, "zh-mo"@, 0);
        assert(n2[0] == q[0]);
        lemma_not_prefix_at(n2, "zh-cht"@, 0);
        assert(n2[0] == q[0]);
        lemma_not_prefix_at(n2, "zh"@, 0);
        assert(n2[0] == q[0]);
        lemma_not_prefix_at(n2, "ja"@, 0);
    }
}

proof fn lemma_family_fr(rest: Seq<char>)
    ensures
        locale_language("fr"@ + rest) == Language::Fr,
        all_ascii(rest) ==> locale_str_language("fr"@ + rest) == Language::Fr,
{
    reveal_strlit("fr");
    let q = "fr"@;
    let n = dash_normalized(q + rest);
    assert(n.subrange(0, q.len() as int) =~= q);
    reveal_strlit("zh-hant");
    assert(n[0] == q[0]);
    lemma_not_prefix_at(n, "zh-hant"@, 0);
    reveal_strlit("zh-tw");
    assert(n[0] == q[0]);
    lemma_not_prefix_at(n, "zh-tw"@, 0);
    reveal_strlit("zh-hk");
    assert(n[0] == q[0]);
    lemma_not_prefix_at(n, "zh-hk"@, 0);
    reveal_strlit("zh-mo");
    assert(n[0] == q[0]);
    lemma_not_prefix_at(n, "zh-mo"@, 0);
    reveal_strlit("zh-cht");
    assert(n[0] == q[0]);
    lemma_not_prefix_at(n, "zh-cht"@, 0);
    reveal_strlit("zh");
    assert(n[0] == q[0]);
    lemma_not_prefix_at(n, "zh"@, 0);
    reveal_strlit("ja");
    assert(n[0] == q[0]);
    lemma_not_prefix_at(n, "ja"@, 0);
    reveal_strlit("ko");
    assert(n[0] == q[0]);
    lemma_not_prefix_at(n, "ko"@, 0);
    assert(all_ascii(q));
    assert(ascii_lowercase(q) =~= q);
    if all_ascii(rest) {
        assert(all_ascii(q + rest));
        lemma_ascii_locale(q + rest);
        let m = ascii_lowercase(rest);
        assert(ascii_lowercase(q + rest) =~= q + m);
        let n2 = dash_normalized(q + m);
        assert(n2.subrange(0, q.len() as int) =~= q);
        assert(n2[0] == q[0]);
        lemma_not_prefix_at(n2, "zh-hant"@, 0);
        assert(n2[0] == q[0]);
        lemma_not_prefix_at(n2, "zh-tw"@, 0);
        assert(n2[0] == q[0]);
        lemma_not_prefix_at(n2, "zh-hk"@, 0);
        assert(n2[0] == q[0]);
        lemma_not_prefix_at(n2, "zh-mo"@, 0);
        assert(n2[0] == q[0]);
        lemma_not_prefix_at(n2, "zh-cht"@, 0);
        assert(n2[0] == q[0]);
        lemma_not_prefix_at(n2, "zh"@, 0);
        assert(n2[0] == q[0]);
        lemma_not_prefix_at(n2, "ja"@, 0);
        assert(n2[0] == q[0]);
        lemma_not_prefix_at(n2, "ko"@, 0);
    }
}

proof fn lemma_family_de(rest: Seq<char>)
    ensures
        locale_language("de"@ + rest) == Language::De,
        all_ascii(rest) ==> locale_str_language("de"@ + rest) == Language::De,
{
    reveal_strlit("de");
    let q = "de"@;
    let n = dash_normalized(q + rest);
    assert(n.subrange(0, q.len() as int) =~= q);
    reveal_strlit("zh-hant");
    assert(n[0] == q[0]);
    lemma_not_prefix_at(n, "zh-hant"@, 0);
    reveal_strlit("zh-tw");
    assert(n[0] == q[0]);
    lemma_not_prefix_at(n, "zh-tw"@, 0);
    reveal_strlit("zh-hk");
    assert(n[0] == q[0]);
    lemma_not_prefix_at(n, "zh-hk"@, 0);
    reveal_strlit("zh-mo");
    assert(n[0] == q[0]);
    lemma_not_prefix_at(n, "zh-mo"@, 0);
    reveal_strlit("zh-cht");
    assert(n[0] == q[0]);
    lemma_not_prefix_at(n, "zh-cht"@, 0);
    reveal_strlit("zh");
    assert(n[0] == q[0]);
    lemma_not_prefix_at(n, "zh"@, 0);
    reveal_strlit("ja");
    assert(n[0] == q[0]);
    lemma_not_prefix_at(n, "ja"@, 0);
    reveal_strlit("ko");
    assert(n[0] == q[0]);
    lemma_not_prefix_at(n, "ko"@, 0);
    reveal_strlit("fr");
    assert(n[0] == q[0]);
    lemma_not_prefix_at(n, "fr"@, 0);
    assert(all_ascii(q));
    assert(ascii_lowercase(q) =~= q);
    if all_ascii(rest) {
        assert(all_ascii(q + rest));
        lemma_ascii_locale(q + rest);
        let m = ascii_lowercase(rest);
        assert(ascii_lowercase(q + rest) =~= q + m);
        let n2 = dash_normalized(q + m);
        assert(n2.subrange(0, q.len() as int) =~= q);
        assert(n2[0] == q[0]);
        lemma_not_prefix_at(n2, "zh-hant"@, 0);
        assert(n2[0] == q[0]);
        lemma_not_prefix_at(n2, "zh-tw"@, 0);
        assert(n2[0] == q[0]);
        lemma_not_prefix_at(n2, "zh-hk"@, 0);
        assert(n2[0] == q[0]);
        lemma_not_prefix_at(n2, "zh-mo"@, 0);
        assert(n2[0] == q[0]);
        lemma_not_prefix_at(n2, "zh-cht"@, 0);
        assert(n2[0] == q[0]);
        lemma_not_prefix_at(n2, "zh"@, 0);
        assert(n2[0] == q[0]);
        lemma_not_prefix_at(n2, "ja"@, 0);
        assert(n2[0] == q[0]);
        lemma_not_prefix_at(n2, "ko"@, 0);
        assert(n2[0] == q[0]);
        lemma_not_prefix_at(n2, "fr"@, 0);
    }
}

proof fn lemma_family_es(rest: Seq<char>)
    ensures
        locale_language("es"@ + rest) == Language::Es,
        all_ascii(rest) ==> locale_str_language("es"@ + rest) == Language::Es,
{
    reveal_strlit("es");
    let q = "es"@;
    let n = dash_normalized(q + rest);
    assert(n.subrange(0, q.len() as int) =~= q);
    reveal_strlit("zh-hant");
    assert(n[0] == q[0]);
    lemma_not_prefix_at(n, "zh-hant"@, 0);
    reveal_strlit("zh-tw");
    assert(n[0] == q[0]);
    lemma_not_prefix_at(n, "zh-tw"@, 0);
    reveal_strlit("zh-hk");
    assert(n[0] == q[0]);
    lemma_not_prefix_at(n, "zh-hk"@, 0);
    reveal_strlit("zh-mo");
    assert(n[0] == q[0]);
    lemma_not_prefix_at(n, "zh-mo"@, 0);
    reveal_strlit("zh-cht");
    assert(n[0] == q[0]);
    lemma_not_prefix_at(n, "zh-cht"@, 0);
    reveal_strlit("zh");
    assert(n[0] == q[0]);
    lemma_not_prefix_at(n, "zh"@, 0);
    reveal_strlit("ja");
    assert(n[0] == q[0]);
    lemma_not_prefix_at(n, "ja"@, 0);
    reveal_strlit("ko");
    assert(n[0] == q[0]);
    lemma_not_prefix_at(n, "ko"@, 0);
    reveal_strlit("fr");
    assert(n[0] == q[0]);
    lemma_not_prefix_at(n, "fr"@, 0);
    reveal_strlit("de");
    assert(n[0] == q[0]);
    lemma_not_prefix_at(n, "de"@, 0);
    assert(all_ascii(q));
    assert(ascii_lowercase(q) =~= q);
    if all_ascii(rest) {
        assert(all_ascii(q + rest));
        lemma_ascii_locale(q + rest);
        let m = ascii_lowercase(rest);
        assert(ascii_lowercase(q + rest) =~= q + m);
        let n2 = dash_normalized(q + m);
        assert(n2.subrange(0, q.len() as int) =~= q);
        assert(n2[0] == q[0]);
        lemma_not_prefix_at(n2, "zh-hant"@, 0);
        assert(n2[0] == q[0]);
        lemma_not_prefix_at(n2, "zh-tw"@, 0);
        assert(n2[0] == q[0]);
        lemma_not_prefix_at(n2, "zh-hk"@, 0);
        assert(n2[0] == q[0]);
        lemma_not_prefix_at(n2, "zh-mo"@, 0);
        assert(n2[0] == q[0]);
        lemma_not_prefix_at(n2, "zh-cht"@, 0);
        assert(n2[0] == q[0]);
        lemma_not_prefix_at(n2, "zh"@, 0);
        assert(n2[0] == q[0]);
        lemma_not_prefix_at(n2, "ja"@, 0);
        assert(n2[0] == q[0]);
        lemma_not_prefix_at(n2, "ko"@, 0);
        assert(n2[0] == q[0]);
        lemma_not_prefix_at(n2, "fr"@, 0);
        assert(n2[0] == q[0]);
        lemma_not_prefix_at(n2, "de"@, 0);
    }
}

proof fn lemma_family_pt(rest: Seq<char>)
    ensures
        locale_language("pt"@ + rest) == Language::Pt,
        all_ascii(rest) ==> locale_str_language("pt"@ + rest) == Language::Pt,
{
    reveal_strlit("pt");
    let q = "pt"@;
    let n = dash_normalized(q + rest);
    assert(n.subrange(0, q.len() as int) =~= q);
    reveal_strlit("zh-hant");
    assert(n[0] == q[0]);
    lemma_not_prefix_at(n, "zh-hant"@, 0);
    reveal_strlit("zh-tw");
    assert(n[0] == q[0]);
    lemma_not_prefix_at(n, "zh-tw"@, 0);
    reveal_strlit("zh-hk");
    assert(n[0] == q[0]);
    lemma_not_prefix_at(n, "zh-hk"@, 0);
    reveal_strlit("zh-mo");
    assert(n[0] == q[0]);
    lemma_not_prefix_at(n, "zh-mo"@, 0);
    reveal_strlit("zh-cht");
    assert(n[0] == q[0]);
    lemma_not_prefix_at(n, "zh-cht"@, 0);
    reveal_strlit("zh");
    assert(n[0] == q[0]);
    lemma_not_prefix_at(n, "zh"@, 0);
    reveal_strlit("ja");
    assert(n[0] == q[0]);
    lemma_not_prefix_at(n, "ja"@, 0);
    reveal_strlit("ko");
    assert(n[0] == q[0]);
    lemma_not_prefix_at(n, "ko"@, 0);
    reveal_strlit("fr");
    assert(n[0] == q[0]);
    lemma_not_prefix_at(n, "fr"@, 0);
    reveal_strlit("de");
    assert(n[0] == q[0]);
    lemma_not_prefix_at(n, "de"@, 0);
    reveal_strlit("es");
    assert(n[0] == q[0]);
    lemma_not_prefix_at(n, "es"@, 0);
    assert(all_ascii(q));
    assert(ascii_lowercase(q) =~= q);
    if all_ascii(rest) {
        assert(all_ascii(q + rest));
        lemma_ascii_locale(q + rest);
        let m = ascii_lowercase(rest);
        assert(ascii_lowercase(q + rest) =~= q + m);
        let n2 = dash_normalized(q + m);
        assert(n2.subrange(0, q.len() as int) =~= q);
        assert(n2[0] == q[0]);
        lemma_not_prefix_at(n2, "zh-hant"@, 0);
        assert(n2[0] == q[0]);
        lemma_not_prefix_at(n2, "zh-tw"@, 0);
        assert(n2[0] == q[0]);
        lemma_not_prefix_at(n2, "zh-hk"@, 0);
        assert(n2[0] == q[0]);
        lemma_not_prefix_at(n2, "zh-mo"@, 0);
        assert(n2[0] == q[0]);
        lemma_not_prefix_at(n2, "zh-cht"@, 0);
        assert(n2[0] == q[0]);
        lemma_not_prefix_at(n2, "zh"@, 0);
        assert(n2[0] == q[0]);
        lemma_not_prefix_at(n2, "ja"@, 0);
        assert(n2[0] == q[0]);
        lemma_not_prefix_at(n2, "ko"@, 0);
        assert(n2[0] == q[0]);
        lemma_not_prefix_at(n2, "fr"@, 0);
        assert(n2[0] == q[0]);
        lemma_not_prefix_at(n2, "de"@, 0);
        assert(n2[0] == q[0]);
        lemma_not_prefix_at(n2, "es"@, 0);
    }
}

proof fn lemma_family_it(rest: Seq<char>)
    ensures
        locale_language("it"@ + rest) == Language::It,
        all_ascii(rest) ==> locale_str_language("it"@ + rest) == Language::It,
{
    reveal_strlit("it");
    let q = "it"@;
    let n = dash_normalized(q + rest);
    assert(n.subrange(0, q.len() as int) =~= q);
    reveal_strlit("zh-hant");
    assert(n[0] == q[0]);
    lemma_not_prefix_at(n, "zh-hant"@, 0);
    reveal_strlit("zh-tw");
    assert(n[0] == q[0]);
    lemma_not_prefix_at(n, "zh-tw"@, 0);
    reveal_strlit("zh-hk");
    assert(n[0] == q[0]);
    lemma_not_prefix_at(n, "zh-hk"@, 0);
    reveal_strlit("zh-mo");
    assert(n[0] == q[0]);
    lemma_not_prefix_at(n, "zh-mo"@, 0);
    reveal_strlit("zh-cht");
    assert(n[0] == q[0]);
    lemma_not_prefix_at(n, "zh-cht"@, 0);
    reveal_strlit("zh");
    assert(n[0] == q[0]);
    lemma_not_prefix_at(n, "zh"@, 0);
    reveal_strlit("ja");
    assert(n[0] == q[0]);
    lemma_not_prefix_at(n, "ja"@, 0);
    reveal_strlit("ko");
    assert(n[0] == q[0]);
    lemma_not_prefix_at(n, "ko"@, 0);
    reveal_strlit("fr");
    assert(n[0] == q[0]);
    lemma_not_prefix_at(n, "fr"@, 0);
    reveal_strlit("de");
    assert(n[0] == q[0]);
    lemma_not_prefix_at(n, "de"@, 0);
    reveal_strlit("es");
    assert(n[0] == q[0]);
    lemma_not_prefix_at(n, "es"@, 0);
    reveal_strlit("pt");
    assert(n[0] == q[0]);
    lemma_not_prefix_at(n, "pt"@, 0);
    assert(all_ascii(q));
    assert(ascii_lowercase(q) =~= q);
    if all_ascii(rest) {
        assert(all_ascii(q + rest));
        lemma_ascii_locale(q + rest);
        let m = ascii_lowercase(rest);
        assert(ascii_lowercase(q + rest) =~= q + m);
        let n2 = dash_normalized(q + m);
        assert(n2.subrange(0, q.len() as int) =~= q);
        assert(n2[0] == q[0]);
        lemma_not_prefix_at(n2, "zh-hant"@, 0);
        assert(n2[0] == q[0]);
        lemma_not_prefix_at(n2, "zh-tw"@, 0);
        assert(n2[0] == q[0]);
        lemma_not_prefix_at(n2, "zh-hk"@, 0);
        assert(n2[0] == q[0]);
        lemma_not_prefix_at(n2, "zh-mo"@, 0);
        assert(n2[0] == q[0]);
        lemma_not_prefix_at(n2, "zh-cht"@, 0);
        assert(n2[0] == q[0]);
        lemma_not_prefix_at(n2, "zh"@, 0);
        assert(n2[0] == q[0]);
        lemma_not_prefix_at(n2, "ja"@, 0);
        assert(n2[0] == q[0]);
        lemma_not_prefix_at(n2, "ko"@, 0);
        assert(n2[0] == q[0]);
        lemma_not_prefix_at(n2, "fr"@, 0);
        assert(n2[0] == q[0]);
        lemma_not_prefix_at(n2, "de"@, 0);
        assert(n2[0] == q[0]);
        lemma_not_prefix_at(n2, "es"@, 0);
        assert(n2[0] == q[0]);
        lemma_not_prefix_at(n2, "pt"@, 0);
    }
}

proof fn lemma_family_ru(rest: Seq<char>)
    ensures
        locale_language("ru"@ + rest) == Language::Ru,
        all_ascii(rest) ==> locale_str_language("ru"@ + rest) == Language::Ru,
{
    reveal_strlit("ru");
    let q = "ru"@;
    let n = dash_normalized(q + rest);
    assert(n.subrange(0, q.len() as int) =~= q);
    reveal_strlit("zh-hant");
    assert(n[0] == q[0]);
    lemma_not_prefix_at(n, "zh-hant"@, 0);
    reveal_strlit("zh-tw");
    assert(n[0] == q[0]);
    lemma_not_prefix_at(n, "zh-tw"@, 0);
    reveal_strlit("zh-hk");
    assert(n[0] == q[0]);
    lemma_not_prefix_at(n, "zh-hk"@, 0);
    reveal_strlit("zh-mo");
    assert(n[0] == q[0]);
    lemma_not_prefix_at(n, "zh-mo"@, 0);
    reveal_strlit("zh-cht");
    assert(n[0] == q[0]);
    lemma_not_prefix_at(n, "zh-cht"@, 0);
    reveal_strlit("zh");
    assert(n[0] == q[0]);
    lemma_not_prefix_at(n, "zh"@, 0);
    reveal_strlit("ja");
    assert(n[0] == q[0]);
    lemma_not_prefix_at(n, "ja"@, 0);
    reveal_strlit("ko");
    assert(n[0] == q[0]);
    lemma_not_prefix_at(n, "ko"@, 0);
    reveal_strlit("fr");
    assert(n[0] == q[0]);
    lemma_not_prefix_at(n, "fr"@, 0);
    reveal_strlit("de");
    assert(n[0] == q[0]);
    lemma_not_prefix_at(n, "de"@, 0);
    reveal_strlit("es");
    assert(n[0] == q[0]);
    lemma_not_prefix_at(n, "es"@, 0);
    reveal_strlit("pt");
    assert(n[0] == q[0]);
    lemma_not_prefix_at(n, "pt"@, 0);
    reveal_strlit("it");
    assert(n[0] == q[0]);
    lemma_not_prefix_at(n, "it"@, 0);
    assert(all_ascii(q));
    assert(ascii_lowercase(q) =~= q);
    if all_ascii(rest) {
        assert(all_ascii(q + rest));
        lemma_ascii_locale(q + rest);
        let m = ascii_lowercase(rest);
        assert(ascii_lowercase(q + rest) =~= q + m);
        let n2 = dash_normalized(q + m);
        assert(n2.subrange(0, q.len() as int) =~= q);
        assert(n2[0] == q[0]);
        lemma_not_prefix_at(n2, "zh-hant"@, 0);
        assert(n2[0] == q[0]);
        lemma_not_prefix_at(n2, "zh-tw"@, 0);
        assert(n2[0] == q[0]);
        lemma_not_prefix_at(n2, "zh-hk"@, 0);
        assert(n2[0] == q[0]);
        lemma_not_prefix_at(n2, "zh-mo"@, 0);
        assert(n2[0] == q[0]);
        lemma_not_prefix_at(n2, "zh-cht"@, 0);
        assert(n2[0] == q[0]);
        lemma_not_prefix_at(n2, "zh"@, 0);
        assert(n2[0] == q[0]);
        lemma_not_prefix_at(n2, "ja"@, 0);
        assert(n2[0] == q[0]);
        lemma_not_prefix_at(n2, "ko"@, 0);
        assert(n2[0] == q[0]);
        lemma_not_prefix_at(n2, "fr"@, 0);
        assert(n2[0] == q[0]);
        lemma_not_prefix_at(n2, "de"@, 0);
        assert(n2[0] == q[0]);
        lemma_not_prefix_at(n2, "es"@, 0);
        assert(n2[0] == q[0]);
        lemma_not_prefix_at(n2, "pt"@, 0);
        assert(n2[0] == q[0]);
        lemma_not_prefix_at(n2, "it"@, 0);
    }
}

proof fn lemma_family_nl(rest: Seq<char>)
    ensures
        locale_language("nl"@ + rest) == Language::Nl,
        all_ascii(rest) ==> locale_str_language("nl"@ + rest) == Language::Nl,
{
    reveal_strlit("nl");
    let q = "nl"@;
    let n = dash_normalized(q + rest);
    assert(n.subrange(0, q.len() as int) =~= q);
    reveal_strlit("zh-hant");
    assert(n[0] == q[0]);
    lemma_not_prefix_at(n, "zh-hant"@, 0);
    reveal_strlit("zh-tw");
    assert(n[0] == q[0]);
    lemma_not_prefix_at(n, "zh-tw"@, 0);
    reveal_strlit("zh-hk");
    assert(n[0] == q[0]);
    lemma_not_prefix_at(n, "zh-hk"@, 0);
    reveal_strlit("zh-mo");
    assert(n[0] == q[0]);
    lemma_not_prefix_at(n, "zh-mo"@, 0);
    reveal_strlit("zh-cht");
    assert(n[0] == q[0]);
    lemma_not_prefix_at(n, "zh-cht"@, 0);
    reveal_strlit("zh");
    assert(n[0] == q[0]);
    lemma_not_prefix_at(n, "zh"@, 0);
    reveal_strlit("ja");
    assert(n[0] == q[0]);
    lemma_not_prefix_at(n, "ja"@, 0);
    reveal_strlit("ko");
    assert(n[0] == q[0]);
    lemma_not_prefix_at(n, "ko"@, 0);
    reveal_strlit("fr");
    assert(n[0] == q[0]);
    lemma_not_prefix_at(n, "fr"@, 0);
    reveal_strlit("de");
    assert(n[0] == q[0]);
    lemma_not_prefix_at(n, "de"@, 0);
    reveal_strlit("es");
    assert(n[0] == q[0]);
    lemma_not_prefix_at(n, "es"@, 0);
    reveal_strlit("pt");
    assert(n[0] == q[0]);
    lemma_not_prefix_at(n, "pt"@, 0);
    reveal_strlit("it");
    assert(n[0] == q[0]);
    lemma_not_prefix_at(n, "it"@, 0);
    reveal_strlit("ru");
    assert(n[0] == q[0]);
    lemma_not_prefix_at(n, "ru"@, 0);
    assert(all_ascii(q));
    assert(ascii_lowercase(q) =~= q);
    if all_ascii(rest) {
        assert(all_ascii(q + rest));
        lemma_ascii_locale(q + rest);
        let m = ascii_lowercase(rest);
        assert(ascii_lowercase(q + rest) =~= q + m);
        let n2 = dash_normalized(q + m);
        assert(n2.subrange(0, q.len() as int) =~= q);
        assert(n2[0] == q[0]);
        lemma_not_prefix_at(n2, "zh-hant"@, 0);
        assert(n2[0] == q[0]);
        lemma_not_prefix_at(n2, "zh-tw"@, 0);
        assert(n2[0] == q[0]);
        lemma_not_prefix_at(n2, "zh-hk"@, 0);
        assert(n2[0] == q[0]);
        lemma_not_prefix_at(n2, "zh-mo"@, 0);
        assert(n2[0] == q[0]);
        lemma_not_prefix_at(n2, "zh-cht"@, 0);
        assert(n2[0] == q[0]);
        lemma_not_prefix_at(n2, "zh"@, 0);
        assert(n2[0] == q[0]);
        lemma_not_prefix_at(n2, "ja"@, 0);
        assert(n2[0] == q[0]);
        lemma_not_prefix_at(n2, "ko"@, 0);
        assert(n2[0] == q[0]);
        lemma_not_prefix_at(n2, "fr"@, 0);
        assert(n2[0] == q[0]);
        lemma_not_prefix_at(n2, "de"@, 0);
        assert(n2[0] == q[0]);
        lemma_not_prefix_at(n2, "es"@, 0);
        assert(n2[0] == q[0]);
        lemma_not_prefix_at(n2, "pt"@, 0);
        assert(n2[0] == q[0]);
        lemma_not_prefix_at(n2, "it"@, 0);
        assert(n2[0] == q[0]);
        lemma_not_prefix_at(n2, "ru"@, 0);
    }
}

proof fn lemma_family_pl(rest: Seq<char>)
    ensures
        locale_language("pl"@ + rest) == Language::Pl,
        all_ascii(rest) ==> locale_str_language("pl"@ + rest) == Language::Pl,
{
    reveal_strlit("pl");
    let q = "pl"@;
    let n = dash_normalized(q + rest);
    assert(n.subrange(0, q.len() as int) =~= q);
    reveal_strlit("zh-hant");
    assert(n[0] == q[0]);
    lemma_not_prefix_at(n, "zh-hant"@, 0);
    reveal_strlit("zh-tw");
    assert(n[0] == q[0]);
    lemma_not_prefix_at(n, "zh-tw"@, 0);
    reveal_strlit("zh-hk");
    assert(n[0] == q[0]);
    lemma_not_prefix_at(n, "zh-hk"@, 0);
    reveal_strlit("zh-mo");
    assert(n[0] == q[0]);
    lemma_not_prefix_at(n, "zh-mo"@, 0);
    reveal_strlit("zh-cht");
    assert(n[0] == q[0]);
    lemma_not_prefix_at(n, "zh-cht"@, 0);
    reveal_strlit("zh");
    assert(n[0] == q[0]);
    lemma_not_prefix_at(n, "zh"@, 0);
    reveal_strlit("ja");
    assert(n[0] == q[0]);
    lemma_not_prefix_at(n, "ja"@, 0);
    reveal_strlit("ko");
    assert(n[0] == q[0]);
    lemma_not_prefix_at(n, "ko"@, 0);
    reveal_strlit("fr");
    assert(n[0] == q[0]);
    lemma_not_prefix_at(n, "fr"@, 0);
    reveal_strlit("de");
    assert(n[0] == q[0]);
    lemma_not_prefix_at(n, "de"@, 0);
    reveal_strlit("es");
    assert(n[0] == q[0]);
    lemma_not_prefix_at(n, "es"@, 0);
    reveal_strlit("pt");
    assert(n[1] == q[1]);
    lemma_not_prefix_at(n, "pt"@, 1);
    reveal_strlit("it");
    assert(n[0] == q[0]);
    lemma_not_prefix_at(n, "it"@, 0);
    reveal_strlit("ru");
    assert(n[0] == q[0]);
    lemma_not_prefix_at(n, "ru"@, 0);
    reveal_strlit("nl");
    assert(n[0] == q[0]);
    lemma_not_prefix_at(n, "nl"@, 0);
    assert(all_ascii(q));
    assert(ascii_lowercase(q) =~= q);
    if all_ascii(rest) {
        assert(all_ascii(q + rest));
        lemma_ascii_locale(q + rest);
        let m = ascii_lowercase(rest);
        assert(ascii_lowercase(q + rest) =~= q + m);
        let n2 = dash_normalized(q + m);
        assert(n2.subrange(0, q.len() as int) =~= q);
        assert(n2[0] == q[0]);
        lemma_not_prefix_at(n2, "zh-hant"@, 0);
        assert(n2[0] == q[0]);
        lemma_not_prefix_at(n2, "zh-tw"@, 0);
        assert(n2[0] == q[0]);
        lemma_not_prefix_at(n2, "zh-hk"@, 0);
        assert(n2[0] == q[0]);
        lemma_not_prefix_at(n2, "zh-mo"@, 0);
        assert(n2[0] == q[0]);
        lemma_not_prefix_at(n2, "zh-cht"@, 0);
        assert(n2[0] == q[0]);
        lemma_not_prefix_at(n2, "zh"@, 0);
        assert(n2[0] == q[0]);
        lemma_not_prefix_at(n2, "ja"@, 0);
        assert(n2[0] == q[0]);
        lemma_not_prefix_at(n2, "ko"@, 0);
        assert(n2[0] == q[0]);
        lemma_not_prefix_at(n2, "fr"@, 0);
        assert(n2[0] == q[0]);
        lemma_not_prefix_at(n2, "de"@, 0);
        assert(n2[0] == q[0]);
        lemma_not_prefix_at(n2, "es"@, 0);
        assert(n2[1] == q[1]);
        lemma_not_prefix_at(n2, "pt"@, 1);
        assert(n2[0] == q[0]);
        lemma_not_prefix_at(n2, "it"@, 0);
        assert(n2[0] == q[0]);
        lemma_not_prefix_at(n2, "ru"@, 0);
        assert(n2[0] == q[0]);
        lemma_not_prefix_at(n2, "nl"@, 0);
    }
}

proof fn lemma_family_tr(rest: Seq<char>)
    ensures
        locale_language("tr"@ + rest) == Language::Tr,
        all_ascii(rest) ==> locale_str_language("tr"@ + rest) == Language::Tr,
{
    reveal_strlit("tr");
    let q = "tr"@;
    let n = dash_normalized(q + rest);
    assert(n.subrange(0, q.len() as int) =~= q);
    reveal_strlit("zh-hant");
    assert(n[0] == q[0]);
    lemma_not_prefix_at(n, "zh-hant"@, 0);
    reveal_strlit("zh-tw");
    assert(n[0] == q[0]);
    lemma_not_prefix_at(n, "zh-tw"@, 0);
    reveal_strlit("zh-hk");
    assert(n[0] == q[0]);
    lemma_not_prefix_at(n, "zh-hk"@, 0);
    reveal_strlit("zh-mo");
    assert(n[0] == q[0]);
    lemma_not_prefix_at(n, "zh-mo"@, 0);
    reveal_strlit("zh-cht");
    assert(n[0] == q[0]);
    lemma_not_prefix_at(n, "zh-cht"@, 0);
    reveal_strlit("zh");
    assert(n[0] == q[0]);
    lemma_not_prefix_at(n, "zh"@, 0);
    reveal_strlit("ja");
    assert(n[0] == q[0]);
    lemma_not_prefix_at(n, "ja"@, 0);
    reveal_strlit("ko");
    assert(n[0] == q[0]);
    lemma_not_prefix_at(n, "ko"@, 0);
    reveal_strlit("fr");
    assert(n[0] == q[0]);
    lemma_not_prefix_at(n, "fr"@, 0);
    reveal_strlit("de");
    assert(n[0] == q[0]);
    lemma_not_prefix_at(n, "de"@, 0);
    reveal_strlit("es");
    assert(n[0] == q[0]);
    lemma_not_prefix_at(n, "es"@, 0);
    reveal_strlit("pt");
    assert(n[0] == q[0]);
    lemma_not_prefix_at(n, "pt"@, 0);
    reveal_strlit("it");
    assert(n[0] == q[0]);
    lemma_not_prefix_at(n, "it"@, 0);
    reveal_strlit("ru");
    assert(n[0] == q[0]);
    lemma_not_prefix_at(n, "ru"@, 0);
    reveal_strlit("nl");
    assert(n[0] == q[0]);
    lemma_not_prefix_at(n, "nl"@, 0);
    reveal_strlit("pl");
    assert(n[0] == q[0]);
    lemma_not_prefix_at(n, "pl"@, 0);
    assert(all_ascii(q));
    assert(ascii_lowercase(q) =~= q);
    if all_ascii(rest) {
        assert(all_ascii(q + rest));
        lemma_ascii_locale(q + rest);
        let m = ascii_lowercase(rest);
        assert(ascii_lowercase(q + rest) =~= q + m);
        let n2 = dash_normalized(q + m);
        assert(n2.subrange(0, q.len() as int) =~= q);
        assert(n2[0] == q[0]);
        lemma_not_prefix_at(n2, "zh-hant"@, 0);
        assert(n2[0] == q[0]);
        lemma_not_prefix_at(n2, "zh-tw"@, 0);
        assert(n2[0] == q[0]);
        lemma_not_prefix_at(n2, "zh-hk"@, 0);
        assert(n2[0] == q[0]);
        lemma_not_prefix_at(n2, "zh-mo"@, 0);
        assert(n2[0] == q[0]);
        lemma_not_prefix_at(n2, "zh-cht"@, 0);
        assert(n2[0] == q[0]);
        lemma_not_prefix_at(n2, "zh"@, 0);
        assert(n2[0] == q[0]);
        lemma_not_prefix_at(n2, "ja"@, 0);
        assert(n2[0] == q[0]);
        lemma_not_prefix_at(n2, "ko"@, 0);
        assert(n2[0] == q[0]);
        lemma_not_prefix_at(n2, "fr"@, 0);
        assert(n2[0] == q[0]);
        lemma_not_prefix_at(n2, "de"@, 0);
        assert(n2[0] == q[0]);
        lemma_not_prefix_at(n2, "es"@, 0);
        assert(n2[0] == q[0]);
        lemma_not_prefix_at(n2, "pt"@, 0);
        assert(n2[0] == q[0]);
        lemma_not_prefix_at(n2, "it"@, 0);
        assert(n2[0] == q[0]);
        lemma_not_prefix_at(n2, "ru"@, 0);
        assert(n2[0] == q[0]);
        lemma_not_prefix_at(n2, "nl"@, 0);
        assert(n2[0] == q[0]);
        lemma_not_prefix_at(n2, "pl"@, 0);
    }
}

proof fn lemma_family_ar(rest: Seq<char>)
    ensures
        locale_language("ar"@ + rest) == Language::Ar,
        all_ascii(rest) ==> locale_str_language("ar"@ + rest) == Language::Ar,
{
    reveal_strlit("ar");
    let q = "ar"@;
    let n = dash_normalized(q + rest);
    assert(n.subrange(0, q.len() as int) =~= q);
    reveal_strlit("zh-hant");
    assert(n[0] == q[0]);
    lemma_not_prefix_at(n, "zh-hant"@, 0);
    reveal_strlit("zh-tw");
    assert(n[0] == q[0]);
    lemma_not_prefix_at(n, "zh-tw"@, 0);
    reveal_strlit("zh-hk");
    assert(n[0] == q[0]);
    lemma_not_prefix_at(n, "zh-hk"@, 0);
    reveal_strlit("zh-mo");
    assert(n[0] == q[0]);
    lemma_not_prefix_at(n, "zh-mo"@, 0);
    reveal_strlit("zh-cht");
    assert(n[0] == q[0]);
    lemma_not_prefix_at(n, "zh-cht"@, 0);
    reveal_strlit("zh");
    assert(n[0] == q[0]);
    lemma_not_prefix_at(n, "zh"@, 0);
    reveal_strlit("ja");
    assert(n[0] == q[0]);
    lemma_not_prefix_at(n, "ja"@, 0);
    reveal_strlit("ko");
    assert(n[0] == q[0]);
    lemma_not_prefix_at(n, "ko"@, 0);
    reveal_strlit("fr");
    assert(n[0] == q[0]);
    lemma_not_prefix_at(n, "fr"@, 0);
    reveal_strlit("de");
    assert(n[0] == q[0]);
    lemma_not_prefix_at(n, "de"@, 0);
    reveal_strlit("es");
    assert(n[0] == q[0]);
    lemma_not_prefix_at(n, "es"@, 0);
    reveal_strlit("pt");
    assert(n[0] == q[0]);
    lemma_not_prefix_at(n, "pt"@, 0);
    reveal_strlit("it");
    assert(n[0] == q[0]);
    lemma_not_prefix_at(n, "it"@, 0);
    reveal_strlit("ru");
    assert(n[0] == q[0]);
    lemma_not_prefix_at(n, "ru"@, 0);
    reveal_strlit("nl");
    assert(n[0] == q[0]);
    lemma_not_prefix_at(n, "nl"@, 0);
    reveal_strlit("pl");
    assert(n[0] == q[0]);
    lemma_not_prefix_at(n, "pl"@, 0);
    reveal_strlit("tr");
    assert(n[0] == q[0]);
    lemma_not_prefix_at(n, "tr"@, 0);
    assert(all_ascii(q));
    assert(ascii_lowercase(q) =~= q);
    if all_ascii(rest) {
        assert(all_ascii(q + rest));
        lemma_ascii_locale(q + rest);
        let m = ascii_lowercase(rest);
        assert(ascii_lowercase(q + rest) =~= q + m);
        let n2 = dash_normalized(q + m);
        assert(n2.subrange(0, q.len() as int) =~= q);
        assert(n2[0] == q[0]);
        lemma_not_prefix_at(n2, "zh-hant"@, 0);
        assert(n2[0] == q[0]);
        lemma_not_prefix_at(n2, "zh-tw"@, 0);
        assert(n2[0] == q[0]);
        lemma_not_prefix_at(n2, "zh-hk"@, 0);
        assert(n2[0] == q[0]);
        lemma_not_prefix_at(n2, "zh-mo"@, 0);
        assert(n2[0] == q[0]);
        lemma_not_prefix_at(n2, "zh-cht"@, 0);
        assert(n2[0] == q[0]);
        lemma_not_prefix_at(n2, "zh"@, 0);
        assert(n2[0] == q[0]);
        lemma_not_prefix_at(n2, "ja"@, 0);
        assert(n2[0] == q[0]);
        lemma_not_prefix_at(n2, "ko"@, 0);
        assert(n2[0] == q[0]);
        lemma_not_prefix_at(n2, "fr"@, 0);
        assert(n2[0] == q[0]);
        lemma_not_prefix_at(n2, "de"@, 0);
        assert(n2[0] == q[0]);
        lemma_not_prefix_at(n2, "es"@, 0);
        assert(n2[0] == q[0]);
        lemma_not_prefix_at(n2, "pt"@, 0);
        assert(n2[0] == q[0]);
        lemma_not_prefix_at(n2, "it"@, 0);
        assert(n2[0] == q[0]);
        lemma_not_prefix_at(n2, "ru"@, 0);
        assert(n2[0] == q[0]);
        lemma_not_prefix_at(n2, "nl"@, 0);
        assert(n2[0] == q[0]);
        lemma_not_prefix_at(n2, "pl"@, 0);
        assert(n2[0] == q[0]);
        lemma_not_prefix_at(n2, "tr"@, 0);
    }
}

proof fn lemma_family_th(rest: Seq<char>)
    ensures
        locale_language("th"@ + rest) == Language::Th,
        all_ascii(rest) ==> locale_str_language("th"@ + rest) == Language::Th,
{
    reveal_strlit("th");
    let q = "th"@;
    let n = dash_normalized(q + rest);
    assert(n.subrange(0, q.len() as int) =~= q);
    reveal_strlit("zh-hant");
    assert(n[0] == q[0]);
    lemma_not_prefix_at(n, "zh-hant"@, 0);
    reveal_strlit("zh-tw");
    assert(n[0] == q[0]);
    lemma_not_prefix_at(n, "zh-tw"@, 0);
    reveal_strlit("zh-hk");
    assert(n[0] == q[0]);
    lemma_not_prefix_at(n, "zh-hk"@, 0);
    reveal_strlit("zh-mo");
    assert(n[0] == q[0]);
    lemma_not_prefix_at(n, "zh-mo"@, 0);
    reveal_strlit("zh-cht");
    assert(n[0] == q[0]);
    lemma_not_prefix_at(n, "zh-cht"@, 0);
    reveal_strlit("zh");
    assert(n[0] == q[0]);
    lemma_not_prefix_at(n, "zh"@, 0);
    reveal_strlit("ja");
    assert(n[0] == q[0]);
    lemma_not_prefix_at(n, "ja"@, 0);
    reveal_strlit("ko");
    assert(n[0] == q[0]);
    lemma_not_prefix_at(n, "ko"@, 0);
    reveal_strlit("fr");
    assert(n[0] == q[0]);
    lemma_not_prefix_at(n, "fr"@, 0);
    reveal_strlit("de");
    assert(n[0] == q[0]);
    lemma_not_prefix_at(n, "de"@, 0);
    reveal_strlit("es");
    assert(n[0] == q[0]);
    lemma_not_prefix_at(n, "es"@, 0);
    reveal_strlit("pt");
    assert(n[0] == q[0]);
    lemma_not_prefix_at(n, "pt"@, 0);
    reveal_strlit("it");
    assert(n[0] == q[0]);
    lemma_not_prefix_at(n, "it"@, 0);
    reveal_strlit("ru");
    assert(n[0] == q[0]);
    lemma_not_prefix_at(n, "ru"@, 0);
    reveal_strlit("nl");
    assert(n[0] == q[0]);
    lemma_not_prefix_at(n, "nl"@, 0);
    reveal_strlit("pl");
    assert(n[0] == q[0]);
    lemma_not_prefix_at(n, "pl"@, 0);
    reveal_strlit("tr");
    assert(n[1] == q[1]);
    lemma_not_prefix_at(n, "tr"@, 1);
    reveal_strlit("ar");
    assert(n[0] == q[0]);
    lemma_not_prefix_at(n, "ar"@, 0);
    assert(all_ascii(q));
    assert(ascii_lowercase(q) =~= q);
    if all_ascii(rest) {
        assert(all_ascii(q + rest));
        lemma_ascii_locale(q + rest);
        let m = ascii_lowercase(rest);
        assert(ascii_lowercase(q + rest) =~= q + m);
        let n2 = dash_normalized(q + m);
        assert(n2.subrange(0, q.len() as int) =~= q);
        assert(n2[0] == q[0]);
        lemma_not_prefix_at(n2, "zh-hant"@, 0);
        assert(n2[0] == q[0]);
        lemma_not_prefix_at(n2, "zh-tw"@, 0);
        assert(n2[0] == q[0]);
        lemma_not_prefix_at(n2, "zh-hk"@, 0);
        assert(n2[0] == q[0]);
        lemma_not_prefix_at(n2, "zh-mo"@, 0);
        assert(n2[0] == q[0]);
        lemma_not_prefix_at(n2, "zh-cht"@, 0);
        assert(n2[0] == q[0]);
        lemma_not_prefix_at(n2, "zh"@, 0);
        assert(n2[0] == q[0]);
        lemma_not_prefix_at(n2, "ja"@, 0);
        assert(n2[0] == q[0]);
        lemma_not_prefix_at(n2, "ko"@, 0);
        assert(n2[0] == q[0]);
        lemma_not_prefix_at(n2, "fr"@, 0);
        assert(n2[0] == q[0]);
        lemma_not_prefix_at(n2, "de"@, 0);
        assert(n2[0] == q[0]);
        lemma_not_prefix_at(n2, "es"@, 0);
        assert(n2[0] == q[0]);
        lemma_not_prefix_at(n2, "pt"@, 0);
        assert(n2[0] == q[0]);
        lemma_not_prefix_at(n2, "it"@, 0);
        assert(n2[0] == q[0]);
        lemma_not_prefix_at(n2, "ru"@, 0);
        assert(n2[0] == q[0]);
        lemma_not_prefix_at(n2, "nl"@, 0);
        assert(n2[0] == q[0]);
        lemma_not_prefix_at(n2, "pl"@, 0);
        assert(n2[1] == q[1]);
        lemma_not_prefix_at(n2, "tr"@, 1);
        assert(n2[0] == q[0]);
        lemma_not_prefix_at(n2, "ar"@, 0);
    }
}

proof fn lemma_family_vi(rest: Seq<char>)
    ensures
        locale_language("vi"@ + rest) == Language::Vi,
        all_ascii(rest) ==> locale_str_language("vi"@ + rest) == Language::Vi,
{
    reveal_strlit("vi");
    let q = "vi"@;
    let n = dash_normalized(q + rest);
    assert(n.subrange(0, q.len() as int) =~= q);
    reveal_strlit("zh-hant");
    assert(n[0] == q[0]);
    lemma_not_prefix_at(n, "zh-hant"@, 0);
    reveal_strlit("zh-tw");
    assert(n[0] == q[0]);
    lemma_not_prefix_at(n, "zh-tw"@, 0);
    reveal_strlit("zh-hk");
    assert(n[0] == q[0]);
    lemma_not_prefix_at(n, "zh-hk"@, 0);
    reveal_strlit("zh-mo");
    assert(n[0] == q[0]);
    lemma_not_prefix_at(n, "zh-mo"@, 0);
    reveal_strlit("zh-cht");
    assert(n[0] == q[0]);
    lemma_not_prefix_at(n, "zh-cht"@, 0);
    reveal_strlit("zh");
    assert(n[0] == q[0]);
    lemma_not_prefix_at(n, "zh"@, 0);
    reveal_strlit("ja");
    assert(n[0] == q[0]);
    lemma_not_prefix_at(n, "ja"@, 0);
    reveal_strlit("ko");
    assert(n[0] == q[0]);
    lemma_not_prefix_at(n, "ko"@, 0);
    reveal_strlit("fr");
    assert(n[0] == q[0]);
    lemma_not_prefix_at(n, "fr"@, 0);
    reveal_strlit("de");
    assert(n[0] == q[0]);
    lemma_not_prefix_at(n, "de"@, 0);
    reveal_strlit("es");
    assert(n[0] == q[0]);
    lemma_not_prefix_at(n, "es"@, 0);
    reveal_strlit("pt");
    assert(n[0] == q[0]);
    lemma_not_prefix_at(n, "pt"@, 0);
    reveal_strlit("it");
    assert(n[0] == q[0]);
    lemma_not_prefix_at(n, "it"@, 0);
    reveal_strlit("ru");
    assert(n[0] == q[0]);
    lemma_not_prefix_at(n, "ru"@, 0);
    reveal_strlit("nl");
    assert(n[0] == q[0]);
    lemma_not_prefix_at(n, "nl"@, 0);
    reveal_strlit("pl");
    assert(n[0] == q[0]);
    lemma_not_prefix_at(n, "pl"@, 0);
    reveal_strlit("tr");
    assert(n[0] == q[0]);
    lemma_not_prefix_at(n, "tr"@, 0);
    reveal_strlit("ar");
    assert(n[0] == q[0]);
    lemma_not_prefix_at(n, "ar"@, 0);
    reveal_strlit("th");
    assert(n[0] == q[0]);
    lemma_not_prefix_at(n, "th"@, 0);
    assert(all_ascii(q));
    assert(ascii_lowercase(q) =~= q);
    if all_ascii(rest) {
        assert(all_ascii(q + rest));
        lemma_ascii_locale(q + rest);
        let m = ascii_lowercase(rest);
        assert(ascii_lowercase(q + rest) =~= q + m);
        let n2 = dash_normalized(q + m);
        assert(n2.subrange(0, q.len() as int) =~= q);
        assert(n2[0] == q[0]);
        lemma_not_prefix_at(n2, "zh-hant"@, 0);
        assert(n2[0] == q[0]);
        lemma_not_prefix_at(n2, "zh-tw"@, 0);
        assert(n2[0] == q[0]);
        lemma_not_prefix_at(n2, "zh-hk"@, 0);
        assert(n2[0] == q[0]);
        lemma_not_prefix_at(n2, "zh-mo"@, 0);
        assert(n2[0] == q[0]);
        lemma_not_prefix_at(n2, "zh-cht"@, 0);
        assert(n2[0] == q[0]);
        lemma_not_prefix_at(n2, "zh"@, 0);
        assert(n2[0] == q[0]);
        lemma_not_prefix_at(n2, "ja"@, 0);
        assert(n2[0] == q[0]);
        lemma_not_prefix_at(n2, "ko"@, 0);
        assert(n2[0] == q[0]);
        lemma_not_prefix_at(n2, "fr"@, 0);
        assert(n2[0] == q[0]);
        lemma_not_prefix_at(n2, "de"@, 0);
        assert(n2[0] == q[0]);
        lemma_not_prefix_at(n2, "es"@, 0);
        assert(n2[0] == q[0]);
        lemma_not_prefix_at(n2, "pt"@, 0);
        assert(n2[0] == q[0]);
        lemma_not_prefix_at(n2, "it"@, 0);
        assert(n2[0] == q[0]);
        lemma_not_prefix_at(n2, "ru"@, 0);
        assert(n2[0] == q[0]);
        lemma_not_prefix_at(n2, "nl"@, 0);
        assert(n2[0] == q[0]);
        lemma_not_prefix_at(n2, "pl"@, 0);
        assert(n2[0] == q[0]);
        lemma_not_prefix_at(n2, "tr"@, 0);
        assert(n2[0] == q[0]);
        lemma_not_prefix_at(n2, "ar"@, 0);
        assert(n2[0] == q[0]);
        lemma_not_prefix_at(n2, "th"@, 0);
    }
}

proof fn lemma_family_id(rest: Seq<char>)
    ensures
        locale_language("id"@ + rest) == Language::Id,
        all_ascii(rest) ==> locale_str_language("id"@ + rest) == Language::Id,
{
    reveal_strlit("id");
    let q = "id"@;
    let n = dash_normalized(q + rest);
    assert(n.subrange(0, q.len() as int) =~= q);
    reveal_strlit("zh-hant");
    assert(n[0] == q[0]);
    lemma_not_prefix_at(n, "zh-hant"@, 0);
    reveal_strlit("zh-tw");
    assert(n[0] == q[0]);
    lemma_not_prefix_at(n, "zh-tw"@, 0);
    reveal_strlit("zh-hk");
    assert(n[0] == q[0]);
    lemma_not_prefix_at(n, "zh-hk"@, 0);
    reveal_strlit("zh-mo");
    assert(n[0] == q[0]);
    lemma_not_prefix_at(n, "zh-mo"@, 0);
    reveal_strlit("zh-cht");
    assert(n[0] == q[0]);
    lemma_not_prefix_at(n, "zh-cht"@, 0);
    reveal_strlit("zh");
    assert(n[0] == q[0]);
    lemma_not_prefix_at(n, "zh"@, 0);
    reveal_strlit("ja");
    assert(n[0] == q[0]);
    lemma_not_prefix_at(n, "ja"@, 0);
    reveal_strlit("ko");
    assert(n[0] == q[0]);
    lemma_not_prefix_at(n, "ko"@, 0);
    reveal_strlit("fr");
    assert(n[0] == q[0]);
    lemma_not_prefix_at(n, "fr"@, 0);
    reveal_strlit("de");
    assert(n[0] == q[0]);
    lemma_not_prefix_at(n, "de"@, 0);
    reveal_strlit("es");
    assert(n[0] == q[0]);
    lemma_not_prefix_at(n, "es"@, 0);
    reveal_strlit("pt");
    assert(n[0] == q[0]);
    lemma_not_prefix_at(n, "pt"@, 0);
    reveal_strlit("it");
    assert(n[1] == q[1]);
    lemma_not_prefix_at(n, "it"@, 1);
    reveal_strlit("ru");
    assert(n[0] == q[0]);
    lemma_not_prefix_at(n, "ru"@, 0);
    reveal_strlit("nl");
    assert(n[0] == q[0]);
    lemma_not_prefix_at(n, "nl"@, 0);
    reveal_strlit("pl");
    assert(n[0] == q[0]);
    lemma_not_prefix_at(n, "pl"@, 0);
    reveal_strlit("tr");
    assert(n[0] == q[0]);
    lemma_not_prefix_at(n, "tr"@, 0);
    reveal_strlit("ar");
    assert(n[0] == q[0]);
    lemma_not_prefix_at(n, "ar"@, 0);
    reveal_strlit("th");
    assert(n[0] == q[0]);
    lemma_not_prefix_at(n, "th"@, 0);
    reveal_strlit("vi");
    assert(n[0] == q[0]);
    lemma_not_prefix_at(n, "vi"@, 0);
    assert(all_ascii(q));
    assert(ascii_lowercase(q) =~= q);
    if all_ascii(rest) {
        assert(all_ascii(q + rest));
        lemma_ascii_locale(q + rest);
        let m = ascii_lowercase(rest);
        assert(ascii_lowercase(q + rest) =~= q + m);
        let n2 = dash_normalized(q + m);
        assert(n2.subrange(0, q.len() as int) =~= q);
        assert(n2[0] == q[0]);
        lemma_not_prefix_at(n2, "zh-hant"@, 0);
        assert(n2[0] == q[0]);
        lemma_not_prefix_at(n2, "zh-tw"@, 0);
        assert(n2[0] == q[0]);
        lemma_not_prefix_at(n2, "zh-hk"@, 0);
        assert(n2[0] == q[0]);
        lemma_not_prefix_at(n2, "zh-mo"@, 0);
        assert(n2[0] == q[0]);
        lemma_not_prefix_at(n2, "zh-cht"@, 0);
        assert(n2[0] == q[0]);
        lemma_not_prefix_at(n2, "zh"@, 0);
        assert(n2[0] == q[0]);
        lemma_not_prefix_at(n2, "ja"@, 0);
        assert(n2[0] == q[0]);
        lemma_not_prefix_at(n2, "ko"@, 0);
        assert(n2[0] == q[0]);
        lemma_not_prefix_at(n2, "fr"@, 0);
        assert(n2[0] == q[0]);
        lemma_not_prefix_at(n2, "de"@, 0);
        assert(n2[0] == q[0]);
        lemma_not_prefix_at(n2, "es"@, 0);
        assert(n2[0] == q[0]);
        lemma_not_prefix_at(n2, "pt"@, 0);
        assert(n2[1] == q[1]);
        lemma_not_prefix_at(n2, "it"@, 1);
        assert(n2[0] == q[0]);
        lemma_not_prefix_at(n2, "ru"@, 0);
        assert(n2[0] == q[0]);
        lemma_not_prefix_at(n2, "nl"@, 0);
        assert(n2[0] == q[0]);
        lemma_not_prefix_at(n2, "pl"@, 0);
        assert(n2[0] == q[0]);
        lemma_not_prefix_at(n2, "tr"@, 0);
        assert(n2[0] == q[0]);
        lemma_not_prefix_at(n2, "ar"@, 0);
        assert(n2[0] == q[0]);
        lemma_not_prefix_at(n2, "th"@, 0);
        assert(n2[0] == q[0]);
        lemma_not_prefix_at(n2, "vi"@, 0);
    }
}

proof fn lemma_family_sv(rest: Seq<char>)
    ensures
        locale_language("sv"@ + rest) == Language::Sv,
        all_ascii(rest) ==> locale_str_language("sv"@ + rest) == Language::Sv,
{
    reveal_strlit("sv");
    let q = "sv"@;
    let n = dash_normalized(q + rest);
    assert(n.subrange(0, q.len() as int) =~= q);
    reveal_strlit("zh-hant");
    assert(n[0] == q[0]);
    lemma_not_prefix_at(n, "zh-hant"@, 0);
    reveal_strlit("zh-tw");
    assert(n[0] == q[0]);
    lemma_not_prefix_at(n, "zh-tw"@, 0);
    reveal_strlit("zh-hk");
    assert(n[0] == q[0]);
    lemma_not_prefix_at(n, "zh-hk"@, 0);
    reveal_strlit("zh-mo");
    assert(n[0] == q[0]);
    lemma_not_prefix_at(n, "zh-mo"@, 0);
    reveal_strlit("zh-cht");
    assert(n[0] == q[0]);
    lemma_not_prefix_at(n, "zh-cht"@, 0);
    reveal_strlit("zh");
    assert(n[0] == q[0]);
    lemma_not_prefix_at(n, "zh"@, 0);
    reveal_strlit("ja");
    assert(n[0] == q[0]);
    lemma_not_prefix_at(n, "ja"@, 0);
    reveal_strlit("ko");
    assert(n[0] == q[0]);
    lemma_not_prefix_at(n, "ko"@, 0);
    reveal_strlit("fr");
    assert(n[0] == q[0]);
    lemma_not_prefix_at(n, "fr"@, 0);
    reveal_strlit("de");
    assert(n[0] == q[0]);
    lemma_not_prefix_at(n, "de"@, 0);
    reveal_strlit("es");
    assert(n[0] == q[0]);
    lemma_not_prefix_at(n, "es"@, 0);
    reveal_strlit("pt");
    assert(n[0] == q[0]);
    lemma_not_prefix_at(n, "pt"@, 0);
    reveal_strlit("it");
    assert(n[0] == q[0]);
    lemma_not_prefix_at(n, "it"@, 0);
    reveal_strlit("ru");
    assert(n[0] == q[0]);
    lemma_not_prefix_at(n, "ru"@, 0);
    reveal_strlit("nl");
    assert(n[0] == q[0]);
    lemma_not_prefix_at(n, "nl"@, 0);
    reveal_strlit("pl");
    assert(n[0] == q[0]);
    lemma_not_prefix_at(n, "pl"@, 0);
    reveal_strlit("tr");
    assert(n[0] == q[0]);
    lemma_not_prefix_at(n, "tr"@, 0);
    reveal_strlit("ar");
    assert(n[0] == q[0]);
    lemma_not_prefix_at(n, "ar"@, 0);
    reveal_strlit("th");
    assert(n[0] == q[0]);
    lemma_not_prefix_at(n, "th"@, 0);
    reveal_strlit("vi");
    assert(n[0] == q[0]);
    lemma_not_prefix_at(n, "vi"@, 0);
    reveal_strlit("id");
    assert(n[0] == q[0]);
    lemma_not_prefix_at(n, "id"@, 0);
    assert(all_ascii(q));
    assert(ascii_lowercase(q) =~= q);
    if all_ascii(rest) {
        assert(all_ascii(q + rest));
        lemma_ascii_locale(q + rest);
        let m = ascii_lowercase(rest);
        assert(ascii_lowercase(q + rest) =~= q + m);
        let n2 = dash_normalized(q + m);
        assert(n2.subrange(0, q.len() as int) =~= q);
        assert(n2[0] == q[0]);
        lemma_not_prefix_at(n2, "zh-hant"@, 0);
        assert(n2[0] == q[0]);
        lemma_not_prefix_at(n2, "zh-tw"@, 0);
        assert(n2[0] == q[0]);
        lemma_not_prefix_at(n2, "zh-hk"@, 0);
        assert(n2[0] == q[0]);
        lemma_not_prefix_at(n2, "zh-mo"@, 0);
        assert(n2[0] == q[0]);
        lemma_not_prefix_at(n2, "zh-cht"@, 0);
        assert(n2[0] == q[0]);
        lemma_not_prefix_at(n2, "zh"@, 0);
        assert(n2[0] == q[0]);
        lemma_not_prefix_at(n2, "ja"@, 0);
        assert(n2[0] == q[0]);
        lemma_not_prefix_at(n2, "ko"@, 0);
        assert(n2[0] == q[0]);
        lemma_not_prefix_at(n2, "fr"@, 0);
        assert(n2[0] == q[0]);
        lemma_not_prefix_at(n2, "de"@, 0);
        assert(n2[0] == q[0]);
        lemma_not_prefix_at(n2, "es"@, 0);
        assert(n2[0] == q[0]);
        lemma_not_prefix_at(n2, "pt"@, 0);
        assert(n2[0] == q[0]);
        lemma_not_prefix_at(n2, "it"@, 0);
        assert(n2[0] == q[0]);
        lemma_not_prefix_at(n2, "ru"@, 0);
        assert(n2[0] == q[0]);
        lemma_not_prefix_at(n2, "nl"@, 0);
        assert(n2[0] == q[0]);
        lemma_not_prefix_at(n2, "pl"@, 0);
        assert(n2[0] == q[0]);
        lemma_not_prefix_at(n2, "tr"@, 0);
        assert(n2[0] == q[0]);
        lemma_not_prefix_at(n2, "ar"@, 0);
        assert(n2[0] == q[0]);
        lemma_not_prefix_at(n2, "th"@, 0);
        assert(n2[0] == q[0]);
        lemma_not_prefix_at(n2, "vi"@, 0);
        assert(n2[0] == q[0]);
        lemma_not_prefix_at(n2, "id"@, 0);
    }
}

proof fn lemma_family_da(rest: Seq<char>)
    ensures
        locale_language("da"@ + rest) == Language::Da,
        all_ascii(rest) ==> locale_str_language("da"@ + rest) == Language::Da,
{
    reveal_strlit("da");
    let q = "da"@;
    let n = dash_normalized(q + rest);
    assert(n.subrange(0, q.len() as int) =~= q);
    reveal_strlit("zh-hant");
    assert(n[0] == q[0]);
    lemma_not_prefix_at(n, "zh-hant"@, 0);
    reveal_strlit("zh-tw");
    assert(n[0] == q[0]);
    lemma_not_prefix_at(n, "zh-tw"@, 0);
    reveal_strlit("zh-hk");
    assert(n[0] == q[0]);
    lemma_not_prefix_at(n, "zh-hk"@, 0);
    reveal_strlit("zh-mo");
    assert(n[0] == q[0]);
    lemma_not_prefix_at(n, "zh-mo"@, 0);
    reveal_strlit("zh-cht");
    assert(n[0] == q[0]);
    lemma_not_prefix_at(n, "zh-cht"@, 0);
    reveal_strlit("zh");
    assert(n[0] == q[0]);
    lemma_not_prefix_at(n, "zh"@, 0);
    reveal_strlit("ja");
    assert(n[0] == q[0]);
    lemma_not_prefix_at(n, "ja"@, 0);
    reveal_strlit("ko");
    assert(n[0] == q[0]);
    lemma_not_prefix_at(n, "ko"@, 0);
    reveal_strlit("fr");
    assert(n[0] == q[0]);
    lemma_not_prefix_at(n, "fr"@, 0);
    reveal_strlit("de");
    assert(n[1] == q[1]);
    lemma_not_prefix_at(n, "de"@, 1);
    reveal_strlit("es");
    assert(n[0] == q[0]);
    lemma_not_prefix_at(n, "es"@, 0);
    reveal_strlit("pt");
    assert(n[0] == q[0]);
    lemma_not_prefix_at(n, "pt"@, 0);
    reveal_strlit("it");
    assert(n[0] == q[0]);
    lemma_not_prefix_at(n, "it"@, 0);
    reveal_strlit("ru");
    assert(n[0] == q[0]);
    lemma_not_prefix_at(n, "ru"@, 0);
    reveal_strlit("nl");
    assert(n[0] == q[0]);
    lemma_not_prefix_at(n, "nl"@, 0);
    reveal_strlit("pl");
    assert(n[0] == q[0]);
    lemma_not_prefix_at(n, "pl"@, 0);
    reveal_strlit("tr");
    assert(n[0] == q[0]);
    lemma_not_prefix_at(n, "tr"@, 0);
    reveal_strlit("ar");
    assert(n[0] == q[0]);
    lemma_not_prefix_at(n, "ar"@, 0);
    reveal_strlit("th");
    assert(n[0] == q[0]);
    lemma_not_prefix_at(n, "th"@, 0);
    reveal_strlit("vi");
    assert(n[0] == q[0]);
    lemma_not_prefix_at(n, "vi"@, 0);
    reveal_strlit("id");
    assert(n[0] == q[0]);
    lemma_not_prefix_at(n, "id"@, 0);
    reveal_strlit("sv");
    assert(n[0] == q[0]);
    lemma_not_prefix_at(n, "sv"@, 0);
    assert(all_ascii(q));
    assert(ascii_lowercase(q) =~= q);
    if all_ascii(rest) {
        assert(all_ascii(q + rest));
        lemma_ascii_locale(q + rest);
        let m = ascii_lowercase(rest);
        assert(ascii_lowercase(q + rest) =~= q + m);
        let n2 = dash_normalized(q + m);
        assert(n2.subrange(0, q.len() as int) =~= q);
        assert(n2[0] == q[0]);
        lemma_not_prefix_at(n2, "zh-hant"@, 0);
        assert(n2[0] == q[0]);
        lemma_not_prefix_at(n2, "zh-tw"@, 0);
        assert(n2[0] == q[0]);
        lemma_not_prefix_at(n2, "zh-hk"@, 0);
        assert(n2[0] == q[0]);
        lemma_not_prefix_at(n2, "zh-mo"@, 0);
        assert(n2[0] == q[0]);
        lemma_not_prefix_at(n2, "zh-cht"@, 0);
        assert(n2[0] == q[0]);
        lemma_not_prefix_at(n2, "zh"@, 0);
        assert(n2[0] == q[0]);
        lemma_not_prefix_at(n2, "ja"@, 0);
        assert(n2[0] == q[0]);
        lemma_not_prefix_at(n2, "ko"@, 0);
        assert(n2[0] == q[0]);
        lemma_not_prefix_at(n2, "fr"@, 0);
        assert(n2[1] == q[1]);
        lemma_not_prefix_at(n2, "de"@, 1);
        assert(n2[0] == q[0]);
        lemma_not_prefix_at(n2, "es"@, 0);
        assert(n2[0] == q[0]);
        lemma_not_prefix_at(n2, "pt"@, 0);
        assert(n2[0] == q[0]);
        lemma_not_prefix_at(n2, "it"@, 0);
        assert(n2[0] == q[0]);
        lemma_not_prefix_at(n2, "ru"@, 0);
        assert(n2[0] == q[0]);
        lemma_not_prefix_at(n2, "nl"@, 0);
        assert(n2[0] == q[0]);
        lemma_not_prefix_at(n2, "pl"@, 0);
        assert(n2[0] == q[0]);
        lemma_not_prefix_at(n2, "tr"@, 0);
        assert(n2[0] == q[0]);
        lemma_not_prefix_at(n2, "ar"@, 0);
        assert(n2[0] == q[0]);
        lemma_not_prefix_at(n2, "th"@, 0);
        assert(n2[0] == q[0]);
        lemma_not_prefix_at(n2, "vi"@, 0);
        assert(n2[0] == q[0]);
        lemma_not_prefix_at(n2, "id"@, 0);
        assert(n2[0] == q[0]);
        lemma_not_prefix_at(n2, "sv"@, 0);
    }
}

proof fn lemma_family_nb(rest: Seq<char>)
    ensures
        locale_language("nb"@ + rest) == Language::Nb,
        all_ascii(rest) ==> locale_str_language("nb"@ + rest) == Language::Nb,
{
    reveal_strlit("nb");
    let q = "nb"@;
    let n = dash_normalized(q + rest);
    assert(n.subrange(0, q.len() as int) =~= q);
    reveal_strlit("zh-hant");
    assert(n[0] == q[0]);
    lemma_not_prefix_at(n, "zh-hant"@, 0);
    reveal_strlit("zh-tw");
    assert(n[0] == q[0]);
    lemma_not_prefix_at(n, "zh-tw"@, 0);
    reveal_strlit("zh-hk");
    assert(n[0] == q[0]);
    lemma_not_prefix_at(n, "zh-hk"@, 0);
    reveal_strlit("zh-mo");
    assert(n[0] == q[0]);
    lemma_not_prefix_at(n, "zh-mo"@, 0);
    reveal_strlit("zh-cht");
    assert(n[0] == q[0]);
    lemma_not_prefix_at(n, "zh-cht"@, 0);
    reveal_strlit("zh");
    assert(n[0] == q[0]);
    lemma_not_prefix_at(n, "zh"@, 0);
    reveal_strlit("ja");
    assert(n[0] == q[0]);
    lemma_not_prefix_at(n, "ja"@, 0);
    reveal_strlit("ko");
    assert(n[0] == q[0]);
    lemma_not_prefix_at(n, "ko"@, 0);
    reveal_strlit("fr");
    assert(n[0] == q[0]);
    lemma_not_prefix_at(n, "fr"@, 0);
    reveal_strlit("de");
    assert(n[0] == q[0]);
    lemma_not_prefix_at(n, "de"@, 0);
    reveal_strlit("es");
    assert(n[0] == q[0]);
    lemma_not_prefix_at(n, "es"@, 0);
    reveal_strlit("pt");
    assert(n[0] == q[0]);
    lemma_not_prefix_at(n, "pt"@, 0);
    reveal_strlit("it");
    assert(n[0] == q[0]);
    lemma_not_prefix_at(n, "it"@, 0);
    reveal_strlit("ru");
    assert(n[0] == q[0]);
    lemma_not_prefix_at(n, "ru"@, 0);
    reveal_strlit("nl");
    assert(n[1] == q[1]);
    lemma_not_prefix_at(n, "nl"@, 1);
    reveal_strlit("pl");
    assert(n[0] == q[0]);
    lemma_not_prefix_at(n, "pl"@, 0);
    reveal_strlit("tr");
    assert(n[0] == q[0]);
    lemma_not_prefix_at(n, "tr"@, 0);
    reveal_strlit("ar");
    assert(n[0] == q[0]);
    lemma_not_prefix_at(n, "ar"@, 0);
    reveal_strlit("th");
    assert(n[0] == q[0]);
    lemma_not_prefix_at(n, "th"@, 0);
    reveal_strlit("vi");
    assert(n[0] == q[0]);
    lemma_not_prefix_at(n, "vi"@, 0);
    reveal_strlit("id");
    assert(n[0] == q[0]);
    lemma_not_prefix_at(n, "id"@, 0);
    reveal_strlit("sv");
    assert(n[0] == q[0]);
    lemma_not_prefix_at(n, "sv"@, 0);
    reveal_strlit("da");
    assert(n[0] == q[0]);
    lemma_not_prefix_at(n, "da"@, 0);
    assert(all_ascii(q));
    assert(ascii_lowercase(q) =~= q);
    if all_ascii(rest) {
        assert(all_ascii(q + rest));
        lemma_ascii_locale(q + rest);
        let m = ascii_lowercase(rest);
        assert(ascii_lowercase(q + rest) =~= q + m);
        let n2 = dash_normalized(q + m);
        assert(n2.subrange(0, q.len() as int) =~= q);
        assert(n2[0] == q[0]);
        lemma_not_prefix_at(n2, "zh-hant"@, 0);
        assert(n2[0] == q[0]);
        lemma_not_prefix_at(n2, "zh-tw"@, 0);
        assert(n2[0] == q[0]);
        lemma_not_prefix_at(n2, "zh-hk"@, 0);
        assert(n2[0] == q[0]);
        lemma_not_prefix_at(n2, "zh-mo"@, 0);
        assert(n2[0] == q[0]);
        lemma_not_prefix_at(n2, "zh-cht"@, 0);
        assert(n2[0] == q[0]);
        lemma_not_prefix_at(n2, "zh"@, 0);
        assert(n2[0] == q[0]);
        lemma_not_prefix_at(n2, "ja"@, 0);
        assert(n2[0] == q[0]);
        lemma_not_prefix_at(n2, "ko"@, 0);
        assert(n2[0] == q[0]);
        lemma_not_prefix_at(n2, "fr"@, 0);
        assert(n2[0] == q[0]);
        lemma_not_prefix_at(n2, "de"@, 0);
        assert(n2[0] == q[0]);
        lemma_not_prefix_at(n2, "es"@, 0);
        assert(n2[0] == q[0]);
        lemma_not_prefix_at(n2, "pt"@, 0);
        assert(n2[0] == q[0]);
        lemma_not_prefix_at(n2, "it"@, 0);
        assert(n2[0] == q[0]);
        lemma_not_prefix_at(n2, "ru"@, 0);
        assert(n2[1] == q[1]);
        lemma_not_prefix_at(n2, "nl"@, 1);
        assert(n2[0] == q[0]);
        lemma_not_prefix_at(n2, "pl"@, 0);
        assert(n2[0] == q[0]);
        lemma_not_prefix_at(n2, "tr"@, 0);
        assert(n2[0] == q[0]);
        lemma_not_prefix_at(n2, "ar"@, 0);
        assert(n2[0] == q[0]);
        lemma_not_prefix_at(n2, "th"@, 0);
        assert(n2[0] == q[0]);
        lemma_not_prefix_at(n2, "vi"@, 0);
        assert(n2[0] == q[0]);
        lemma_not_prefix_at(n2, "id"@, 0);
        assert(n2[0] == q[0]);
        lemma_not_prefix_at(n2, "sv"@, 0);
        assert(n2[0] == q[0]);
        lemma_not_prefix_at(n2, "da"@, 0);
    }
}

proof fn lemma_family_no(rest: Seq<char>)
    ensures
        locale_language("no"@ + rest) == Language::Nb,
        all_ascii(rest) ==> locale_str_language("no"@ + rest) == Language::Nb,
{
    reveal_strlit("no");
    let q = "no"@;
    let n = dash_normalized(q + rest);
    assert(n.subrange(0, q.len() as int) =~= q);
    reveal_strlit("zh-hant");
    assert(n[0] == q[0]);
    lemma_not_prefix_at(n, "zh-hant"@, 0);
    reveal_strlit("zh-tw");
    assert(n[0] == q[0]);
    lemma_not_prefix_at(n, "zh-tw"@, 0);
    reveal_strlit("zh-hk");
    assert(n[0] == q[0]);
    lemma_not_prefix_at(n, "zh-hk"@, 0);
    reveal_strlit("zh-mo");
    assert(n[0] == q[0]);
    lemma_not_prefix_at(n, "zh-mo"@, 0);
    reveal_strlit("zh-cht");
    assert(n[0] == q[0]);
    lemma_not_prefix_at(n, "zh-cht"@, 0);
    reveal_strlit("zh");
    assert(n[0] == q[0]);
    lemma_not_prefix_at(n, "zh"@, 0);
    reveal_strlit("ja");
    assert(n[0] == q[0]);
    lemma_not_prefix_at(n, "ja"@, 0);
    reveal_strlit("ko");
    assert(n[0] == q[0]);
    lemma_not_prefix_at(n, "ko"@, 0);
    reveal_strlit("fr");
    assert(n[0] == q[0]);
    lemma_not_prefix_at(n, "fr"@, 0);
    reveal_strlit("de");
    assert(n[0] == q[0]);
    lemma_not_prefix_at(n, "de"@, 0);
    reveal_strlit("es");
    assert(n[0] == q[0]);
    lemma_not_prefix_at(n, "es"@, 0);
    reveal_strlit("pt");
    assert(n[0] == q[0]);
    lemma_not_prefix_at(n, "pt"@, 0);
    reveal_strlit("it");
    assert(n[0] == q[0]);
    lemma_not_prefix_at(n, "it"@, 0);
    reveal_strlit("ru");
    assert(n[0] == q[0]);
    lemma_not_prefix_at(n, "ru"@, 0);
    reveal_strlit("nl");
    assert(n[1] == q[1]);
    lemma_not_prefix_at(n, "nl"@, 1);
    reveal_strlit("pl");
    assert(n[0] == q[0]);
    lemma_not_prefix_at(n, "pl"@, 0);
    reveal_strlit("tr");
    assert(n[0] == q[0]);
    lemma_not_prefix_at(n, "tr"@, 0);
    reveal_strlit("ar");
    assert(n[0] == q[0]);
    lemma_not_prefix_at(n, "ar"@, 0);
    reveal_strlit("th");
    assert(n[0] == q[0]);
    lemma_not_prefix_at(n, "th"@, 0);
    reveal_strlit("vi");
    assert(n[0] == q[0]);
    lemma_not_prefix_at(n, "vi"@, 0);
    reveal_strlit("id");
    assert(n[0] == q[0]);
    lemma_not_prefix_at(n, "id"@, 0);
    reveal_strlit("sv");
    assert(n[0] == q[0]);
    lemma_not_prefix_at(n, "sv"@, 0);
    reveal_strlit("da");
    assert(n[0] == q[0]);
    lemma_not_prefix_at(n, "da"@, 0);
    assert(all_ascii(q));
    assert(ascii_lowercase(q) =~= q);
    if all_ascii(rest) {
        assert(all_ascii(q + rest));
        lemma_ascii_locale(q + rest);
        let m = ascii_lowercase(rest);
        assert(ascii_lowercase(q + rest) =~= q + m);
        let n2 = dash_normalized(q + m);
        assert(n2.subrange(0, q.len() as int) =~= q);
        assert(n2[0] == q[0]);
        lemma_not_prefix_at(n2, "zh-hant"@, 0);
        assert(n2[0] == q[0]);
        lemma_not_prefix_at(n2, "zh-tw"@, 0);
        assert(n2[0] == q[0]);
        lemma_not_prefix_at(n2, "zh-hk"@, 0);
        assert(n2[0] == q[0]);
        lemma_not_prefix_at(n2, "zh-mo"@, 0);
        assert(n2[0] == q[0]);
        lemma_not_prefix_at(n2, "zh-cht"@, 0);
        assert(n2[0] == q[0]);
        lemma_not_prefix_at(n2, "zh"@, 0);
        assert(n2[0] == q[0]);
        lemma_not_prefix_at(n2, "ja"@, 0);
        assert(n2[0] == q[0]);
        lemma_not_prefix_at(n2, "ko"@, 0);
        assert(n2[0] == q[0]);
        lemma_not_prefix_at(n2, "fr"@, 0);
        assert(n2[0] == q[0]);
        lemma_not_prefix_at(n2, "de"@, 0);
        assert(n2[0] == q[0]);
        lemma_not_prefix_at(n2, "es"@, 0);
        assert(n2[0] == q[0]);
        lemma_not_prefix_at(n2, "pt"@, 0);
        assert(n2[0] == q[0]);
        lemma_not_prefix_at(n2, "it"@, 0);
        assert(n2[0] == q[0]);
        lemma_not_prefix_at(n2, "ru"@, 0);
        assert(n2[1] == q[1]);
        lemma_not_prefix_at(n2, "nl"@, 1);
        assert(n2[0] == q[0]);
        lemma_not_prefix_at(n2, "pl"@, 0);
        assert(n2[0] == q[0]);
        lemma_not_prefix_at(n2, "tr"@, 0);
        assert(n2[0] == q[0]);
        lemma_not_prefix_at(n2, "ar"@, 0);
        assert(n2[0] == q[0]);
        lemma_not_prefix_at(n2, "th"@, 0);
        assert(n2[0] == q[0]);
        lemma_not_prefix_at(n2, "vi"@, 0);
        assert(n2[0] == q[0]);
        lemma_not_prefix_at(n2, "id"@, 0);
        assert(n2[0] == q[0]);
        lemma_not_prefix_at(n2, "sv"@, 0);
        assert(n2[0] == q[0]);
        lemma_not_prefix_at(n2, "da"@, 0);
    }
}

proof fn lemma_family_fi(rest: Seq<char>)
    ensures
        locale_language("fi"@ + rest) == Language::Fi,
        all_ascii(rest) ==> locale_str_language("fi"@ + rest) == Language::Fi,
{
    reveal_strlit("fi");
    let q = "fi"@;
    let n = dash_normalized(q + rest);
    assert(n.subrange(0, q.len() as int) =~= q);
    reveal_strlit("zh-hant");
    assert(n[0] == q[0]);
    lemma_not_prefix_at(n, "zh-hant"@, 0);
    reveal_strlit("zh-tw");
    assert(n[0] == q[0]);
    lemma_not_prefix_at(n, "zh-tw"@, 0);
    reveal_strlit("zh-hk");
    assert(n[0] == q[0]);
    lemma_not_prefix_at(n, "zh-hk"@, 0);
    reveal_strlit("zh-mo");
    assert(n[0] == q[0]);
    lemma_not_prefix_at(n, "zh-mo"@, 0);
    reveal_strlit("zh-cht");
    assert(n[0] == q[0]);
    lemma_not_prefix_at(n, "zh-cht"@, 0);
    reveal_strlit("zh");
    assert(n[0] == q[0]);
    lemma_not_prefix_at(n, "zh"@, 0);
    reveal_strlit("ja");
    assert(n[0] == q[0]);
    lemma_not_prefix_at(n, "ja"@, 0);
    reveal_strlit("ko");
    assert(n[0] == q[0]);
    lemma_not_prefix_at(n, "ko"@, 0);
    reveal_strlit("fr");
    assert(n[1] == q[1]);
    lemma_not_prefix_at(n, "fr"@, 1);
    reveal_strlit("de");
    assert(n[0] == q[0]);
    lemma_not_prefix_at(n, "de"@, 0);
    reveal_strlit("es");
    assert(n[0] == q[0]);
    lemma_not_prefix_at(n, "es"@, 0);
    reveal_strlit("pt");
    assert(n[0] == q[0]);
    lemma_not_prefix_at(n, "pt"@, 0);
    reveal_strlit("it");
    assert(n[0] == q[0]);
    lemma_not_prefix_at(n, "it"@, 0);
    reveal_strlit("ru");
    assert(n[0] == q[0]);
    lemma_not_prefix_at(n, "ru"@, 0);
    reveal_strlit("nl");
    assert(n[0] == q[0]);
    lemma_not_prefix_at(n, "nl"@, 0);
    reveal_strlit("pl");
    assert(n[0] == q[0]);
    lemma_not_prefix_at(n, "pl"@, 0);
    reveal_strlit("tr");
    assert(n[0] == q[0]);
    lemma_not_prefix_at(n, "tr"@, 0);
    reveal_strlit("ar");
    assert(n[0] == q[0]);
    lemma_not_prefix_at(n, "ar"@, 0);
    reveal_strlit("th");
    assert(n[0] == q[0]);
    lemma_not_prefix_at(n, "th"@, 0);
    reveal_strlit("vi");
    assert(n[0] == q[0]);
    lemma_not_prefix_at(n, "vi"@, 0);
    reveal_strlit("id");
    assert(n[0] == q[0]);
    lemma_not_prefix_at(n, "id"@, 0);
    reveal_strlit("sv");
    assert(n[0] == q[0]);
    lemma_not_prefix_at(n, "sv"@, 0);
    reveal_strlit("da");
    assert(n[0] == q[0]);
    lemma_not_prefix_at(n, "da"@, 0);
    reveal_strlit("nb");
    assert(n[0] == q[0]);
    lemma_not_prefix_at(n, "nb"@, 0);
    reveal_strlit("no");
    assert(n[0] == q[0]);
    lemma_not_prefix_at(n, "no"@, 0);
    assert(all_ascii(q));
    assert(ascii_lowercase(q) =~= q);
    if all_ascii(rest) {
        assert(all_ascii(q + rest));
        lemma_ascii_locale(q + rest);
        let m = ascii_lowercase(rest);
        assert(ascii_lowercase(q + rest) =~= q + m);
        let n2 = dash_normalized(q + m);
        assert(n2.subrange(0, q.len() as int) =~= q);
        assert(n2[0] == q[0]);
        lemma_not_prefix_at(n2, "zh-hant"@, 0);
        assert(n2[0] == q[0]);
        lemma_not_prefix_at(n2, "zh-tw"@, 0);
        assert(n2[0] == q[0]);
        lemma_not_prefix_at(n2, "zh-hk"@, 0);
        assert(n2[0] == q[0]);
        lemma_not_prefix_at(n2, "zh-mo"@, 0);
        assert(n2[0] == q[0]);
        lemma_not_prefix_at(n2, "zh-cht"@, 0);
        assert(n2[0] == q[0]);
        lemma_not_prefix_at(n2, "zh"@, 0);
        assert(n2[0] == q[0]);
        lemma_not_prefix_at(n2, "ja"@, 0);
        assert(n2[0] == q[0]);
        lemma_not_prefix_at(n2, "ko"@, 0);
        assert(n2[1] == q[1]);
        lemma_not_prefix_at(n2, "fr"@, 1);
        assert(n2[0] == q[0]);
        lemma_not_prefix_at(n2, "de"@, 0);
        assert(n2[0] == q[0]);
        lemma_not_prefix_at(n2, "es"@, 0);
        assert(n2[0] == q[0]);
        lemma_not_prefix_at(n2, "pt"@, 0);
        assert(n2[0] == q[0]);
        lemma_not_prefix_at(n2, "it"@, 0);
        assert(n2[0] == q[0]);
        lemma_not_prefix_at(n2, "ru"@, 0);
        assert(n2[0] == q[0]);
        lemma_not_prefix_at(n2, "nl"@, 0);
        assert(n2[0] == q[0]);
        lemma_not_prefix_at(n2, "pl"@, 0);
        assert(n2[0] == q[0]);
        lemma_not_prefix_at(n2, "tr"@, 0);
        assert(n2[0] == q[0]);
        lemma_not_prefix_at(n2, "ar"@, 0);
        assert(n2[0] == q[0]);
        lemma_not_prefix_at(n2, "th"@, 0);
        assert(n2[0] == q[0]);
        lemma_not_prefix_at(n2, "vi"@, 0);
        assert(n2[0] == q[0]);
        lemma_not_prefix_at(n2, "id"@, 0);
        assert(n2[0] == q[0]);
        lemma_not_prefix_at(n2, "sv"@, 0);
        assert(n2[0] == q[0]);
        lemma_not_prefix_at(n2, "da"@, 0);
        assert(n2[0] == q[0]);
        lemma_not_prefix_at(n2, "nb"@, 0);
        assert(n2[0] == q[0]);
        lemma_not_prefix_at(n2, "no"@, 0);
    }
}

proof fn lemma_family_cs(rest: Seq<char>)
    ensures
        locale_language("cs"@ + rest) == Language::Cs,
        all_ascii(rest) ==> locale_str_language("cs"@ + rest) == Language::Cs,
{
    reveal_strlit("cs");
    let q = "cs"@;
    let n = dash_normalized(q + rest);
    assert(n.subrange(0, q.len() as int) =~= q);
    reveal_strlit("zh-hant");
    assert(n[0] == q[0]);
    lemma_not_prefix_at(n, "zh-hant"@, 0);
    reveal_strlit("zh-tw");
    assert(n[0] == q[0]);
    lemma_not_prefix_at(n, "zh-tw"@, 0);
    reveal_strlit("zh-hk");
    assert(n[0] == q[0]);
    lemma_not_prefix_at(n, "zh-hk"@, 0);
    reveal_strlit("zh-mo");
    assert(n[0] == q[0]);
    lemma_not_prefix_at(n, "zh-mo"@, 0);
    reveal_strlit("zh-cht");
    assert(n[0] == q[0]);
    lemma_not_prefix_at(n, "zh-cht"@, 0);
    reveal_strlit("zh");
    assert(n[0] == q[0]);
    lemma_not_prefix_at(n, "zh"@, 0);
    reveal_strlit("ja");
    assert(n[0] == q[0]);
    lemma_not_prefix_at(n, "ja"@, 0);
    reveal_strlit("ko");
    assert(n[0] == q[0]);
    lemma_not_prefix_at(n, "ko"@, 0);
    reveal_strlit("fr");
    assert(n[0] == q[0]);
    lemma_not_prefix_at(n, "fr"@, 0);
    reveal_strlit("de");
    assert(n[0] == q[0]);
    lemma_not_prefix_at(n, "de"@, 0);
    reveal_strlit("es");
    assert(n[0] == q[0]);
    lemma_not_prefix_at(n, "es"@, 0);
    reveal_strlit("pt");
    assert(n[0] == q[0]);
    lemma_not_prefix_at(n, "pt"@, 0);
    reveal_strlit("it");
    assert(n[0] == q[0]);
    lemma_not_prefix_at(n, "it"@, 0);
    reveal_strlit("ru");
    assert(n[0] == q[0]);
    lemma_not_prefix_at(n, "ru"@, 0);
    reveal_strlit("nl");
    assert(n[0] == q[0]);
    lemma_not_prefix_at(n, "nl"@, 0);
    reveal_strlit("pl");
    assert(n[0] == q[0]);
    lemma_not_prefix_at(n, "pl"@, 0);
    reveal_strlit("tr");
    assert(n[0] == q[0]);
    lemma_not_prefix_at(n, "tr"@, 0);
    reveal_strlit("ar");
    assert(n[0] == q[0]);
    lemma_not_prefix_at(n, "ar"@, 0);
    reveal_strlit("th");
    assert(n[0] == q[0]);
    lemma_not_prefix_at(n, "th"@, 0);
    reveal_strlit("vi");
    assert(n[0] == q[0]);
    lemma_not_prefix_at(n, "vi"@, 0);
    reveal_strlit("id");
    assert(n[0] == q[0]);
    lemma_not_prefix_at(n, "id"@, 0);
    reveal_strlit("sv");
    assert(n[0] == q[0]);
    lemma_not_prefix_at(n, "sv"@, 0);
    reveal_strlit("da");
    assert(n[0] == q[0]);
    lemma_not_prefix_at(n, "da"@, 0);
    reveal_strlit("nb");
    assert(n[0] == q[0]);
    lemma_not_prefix_at(n, "nb"@, 0);
    reveal_strlit("no");
    assert(n[0] == q[0]);
    lemma_not_prefix_at(n, "no"@, 0);
    reveal_strlit("fi");
    assert(n[0] == q[0]);
    lemma_not_prefix_at(n, "fi"@, 0);
    assert(all_ascii(q));
    assert(ascii_lowercase(q) =~= q);
    if all_ascii(rest) {
        assert(all_ascii(q + rest));
        lemma_ascii_locale(q + rest);
        let m = ascii_lowercase(rest);
        assert(ascii_lowercase(q + rest) =~= q + m);
        let n2 = dash_normalized(q + m);
        assert(n2.subrange(0, q.len() as int) =~= q);
        assert(n2[0] == q[0]);
        lemma_not_prefix_at(n2, "zh-hant"@, 0);
        assert(n2[0] == q[0]);
        lemma_not_prefix_at(n2, "zh-tw"@, 0);
        assert(n2[0] == q[0]);
        lemma_not_prefix_at(n2, "zh-hk"@, 0);
        assert(n2[0] == q[0]);
        lemma_not_prefix_at(n2, "zh-mo"@, 0);
        assert(n2[0] == q[0]);
        lemma_not_prefix_at(n2, "zh-cht"@, 0);
        assert(n2[0] == q[0]);
        lemma_not_prefix_at(n2, "zh"@, 0);
        assert(n2[0] == q[0]);
        lemma_not_prefix_at(n2, "ja"@, 0);
        assert(n2[0] == q[0]);
        lemma_not_prefix_at(n2, "ko"@, 0);
        assert(n2[0] == q[0]);
        lemma_not_prefix_at(n2, "fr"@, 0);
        assert(n2[0] == q[0]);
        lemma_not_prefix_at(n2, "de"@, 0);
        assert(n2[0] == q[0]);
        lemma_not_prefix_at(n2, "es"@, 0);
        assert(n2[0] == q[0]);
        lemma_not_prefix_at(n2, "pt"@, 0);
        assert(n2[0] == q[0]);
        lemma_not_prefix_at(n2, "it"@, 0);
        assert(n2[0] == q[0]);
        lemma_not_prefix_at(n2, "ru"@, 0);
        assert(n2[0] == q[0]);
        lemma_not_prefix_at(n2, "nl"@, 0);
        assert(n2[0] == q[0]);
        lemma_not_prefix_at(n2, "pl"@, 0);
        assert(n2[0] == q[0]);
        lemma_not_prefix_at(n2, "tr"@, 0);
        assert(n2[0] == q[0]);
        lemma_not_prefix_at(n2, "ar"@, 0);
        assert(n2[0] == q[0]);
        lemma_not_prefix_at(n2, "th"@, 0);
        assert(n2[0] == q[0]);
        lemma_not_prefix_at(n2, "vi"@, 0);
        assert(n2[0] == q[0]);
        lemma_not_prefix_at(n2, "id"@, 0);
        assert(n2[0] == q[0]);
        lemma_not_prefix_at(n2, "sv"@, 0);
        assert(n2[0] == q[0]);
        lemma_not_prefix_at(n2, "da"@, 0);
        assert(n2[0] == q[0]);
        lemma_not_prefix_at(n2, "nb"@, 0);
        assert(n2[0] == q[0]);
        lemma_not_prefix_at(n2, "no"@, 0);
        assert(n2[0] == q[0]);
        lemma_not_prefix_at(n2, "fi"@, 0);
    }
}

proof fn lemma_family_uk(rest: Seq<char>)
    ensures
        locale_language("uk"@ + rest) == Language::Uk,
        all_ascii(rest) ==> locale_str_language("uk"@ + rest) == Language::Uk,
{
    reveal_strlit("uk");
    let q = "uk"@;
    let n = dash_normalized(q + rest);
    assert(n.subrange(0, q.len() as int) =~= q);
    reveal_strlit("zh-hant");
    assert(n[0] == q[0]);
    lemma_not_prefix_at(n, "zh-hant"@, 0);
    reveal_strlit("zh-tw");
    assert(n[0] == q[0]);
    lemma_not_prefix_at(n, "zh-tw"@, 0);
    reveal_strlit("zh-hk");
    assert(n[0] == q[0]);
    lemma_not_prefix_at(n, "zh-hk"@, 0);
    reveal_strlit("zh-mo");
    assert(n[0] == q[0]);
    lemma_not_prefix_at(n, "zh-mo"@, 0);
    reveal_strlit("zh-cht");
    assert(n[0] == q[0]);
    lemma_not_prefix_at(n, "zh-cht"@, 0);
    reveal_strlit("zh");
    assert(n[0] == q[0]);
    lemma_not_prefix_at(n, "zh"@, 0);
    reveal_strlit("ja");
    assert(n[0] == q[0]);
    lemma_not_prefix_at(n, "ja"@, 0);
    reveal_strlit("ko");
    assert(n[0] == q[0]);
    lemma_not_prefix_at(n, "ko"@, 0);
    reveal_strlit("fr");
    assert(n[0] == q[0]);
    lemma_not_prefix_at(n, "fr"@, 0);
    reveal_strlit("de");
    assert(n[0] == q[0]);
    lemma_not_prefix_at(n, "de"@, 0);
    reveal_strlit("es");
    assert(n[0] == q[0]);
    lemma_not_prefix_at(n, "es"@, 0);
    reveal_strlit("pt");
    assert(n[0] == q[0]);
    lemma_not_prefix_at(n, "pt"@, 0);
    reveal_strlit("it");
    assert(n[0] == q[0]);
    lemma_not_prefix_at(n, "it"@, 0);
    reveal_strlit("ru");
    assert(n[0] == q[0]);
    lemma_not_prefix_at(n, "ru"@, 0);
    reveal_strlit("nl");
    assert(n[0] == q[0]);
    lemma_not_prefix_at(n, "nl"@, 0);
    reveal_strlit("pl");
    assert(n[0] == q[0]);
    lemma_not_prefix_at(n, "pl"@, 0);
    reveal_strlit("tr");
    assert(n[0] == q[0]);
    lemma_not_prefix_at(n, "tr"@, 0);
    reveal_strlit("ar");
    assert(n[0] == q[0]);
    lemma_not_prefix_at(n, "ar"@, 0);
    reveal_strlit("th");
    assert(n[0] == q[0]);
    lemma_not_prefix_at(n, "th"@, 0);
    reveal_strlit("vi");
    assert(n[0] == q[0]);
    lemma_not_prefix_at(n, "vi"@, 0);
    reveal_strlit("id");
    assert(n[0] == q[0]);
    lemma_not_prefix_at(n, "id"@, 0);
    reveal_strlit("sv");
    assert(n[0] == q[0]);
    lemma_not_prefix_at(n, "sv"@, 0);
    reveal_strlit("da");
    assert(n[0] == q[0]);
    lemma_not_prefix_at(n, "da"@, 0);
    reveal_strlit("nb");
    assert(n[0] == q[0]);
    lemma_not_prefix_at(n, "nb"@, 0);
    reveal_strlit("no");
    assert(n[0] == q[0]);
    lemma_not_prefix_at(n, "no"@, 0);
    reveal_strlit("fi");
    assert(n[0] == q[0]);
    lemma_not_prefix_at(n, "fi"@, 0);
    reveal_strlit("cs");
    assert(n[0] == q[0]);
    lemma_not_prefix_at(n, "cs"@, 0);
    assert(all_ascii(q));
    assert(ascii_lowercase(q) =~= q);
    if all_ascii(rest) {
        assert(all_ascii(q + rest));
        lemma_ascii_locale(q + rest);
        let m = ascii_lowercase(rest);
        assert(ascii_lowercase(q + rest) =~= q + m);
        let n2 = dash_normalized(q + m);
        assert(n2.subrange(0, q.len() as int) =~= q);
        assert(n2[0] == q[0]);
        lemma_not_prefix_at(n2, "zh-hant"@, 0);
        assert(n2[0] == q[0]);
        lemma_not_prefix_at(n2, "zh-tw"@, 0);
        assert(n2[0] == q[0]);
        lemma_not_prefix_at(n2, "zh-hk"@, 0);
        assert(n2[0] == q[0]);
        lemma_not_prefix_at(n2, "zh-mo"@, 0);
        assert(n2[0] == q[0]);
        lemma_not_prefix_at(n2, "zh-cht"@, 0);
        assert(n2[0] == q[0]);
        lemma_not_prefix_at(n2, "zh"@, 0);
        assert(n2[0] == q[0]);
        lemma_not_prefix_at(n2, "ja"@, 0);
        assert(n2[0] == q[0]);
        lemma_not_prefix_at(n2, "ko"@, 0);
        assert(n2[0] == q[0]);
        lemma_not_prefix_at(n2, "fr"@, 0);
        assert(n2[0] == q[0]);
        lemma_not_prefix_at(n2, "de"@, 0);
        assert(n2[0] == q[0]);
        lemma_not_prefix_at(n2, "es"@, 0);
        assert(n2[0] == q[0]);
        lemma_not_prefix_at(n2, "pt"@, 0);
        assert(n2[0] == q[0]);
        lemma_not_prefix_at(n2, "it"@, 0);
        assert(n2[0] == q[0]);
        lemma_not_prefix_at(n2, "ru"@, 0);
        assert(n2[0] == q[0]);
        lemma_not_prefix_at(n2, "nl"@, 0);
        assert(n2[0] == q[0]);
        lemma_not_prefix_at(n2, "pl"@, 0);
        assert(n2[0] == q[0]);
        lemma_not_prefix_at(n2, "tr"@, 0);
        assert(n2[0] == q[0]);
        lemma_not_prefix_at(n2, "ar"@, 0);
        assert(n2[0] == q[0]);
        lemma_not_prefix_at(n2, "th"@, 0);
        assert(n2[0] == q[0]);
        lemma_not_prefix_at(n2, "vi"@, 0);
        assert(n2[0] == q[0]);
        lemma_not_prefix_at(n2, "id"@, 0);
        assert(n2[0] == q[0]);
        lemma_not_prefix_at(n2, "sv"@, 0);
        assert(n2[0] == q[0]);
        lemma_not_prefix_at(n2, "da"@, 0);
        assert(n2[0] == q[0]);
        lemma_not_prefix_at(n2, "nb"@, 0);
        assert(n2[0] == q[0]);
        lemma_not_prefix_at(n2, "no"@, 0);
        assert(n2[0] == q[0]);
        lemma_not_prefix_at(n2, "fi"@, 0);
        assert(n2[0] == q[0]);
        lemma_not_prefix_at(n2, "cs"@, 0);
    }
}

/// Every language code is ASCII.
proof fn lemma_code_ascii(l: Language)
    ensures
        all_ascii(language_code(l)),
{
    match l {
        Language::En => reveal_strlit("en"),
        Language::ZhHans => reveal_strlit("zh-Hans"),
        Language::ZhHant => reveal_strlit("zh-Hant"),
        Language::Ja => reveal_strlit("ja"),
        Language::Ko => reveal_strlit("ko"),
        Language::Fr => reveal_strlit("fr"),
        Language::De => reveal_strlit("de"),
        Language::Es => reveal_strlit("es"),
        Language::Pt => reveal_strlit("pt"),
        Language::It => reveal_strlit("it"),
        Language::Ru => reveal_strlit("ru"),
        Language::Nl => reveal_strlit("nl"),
        Language::Pl => reveal_strlit("pl"),
        Language::Tr => reveal_strlit("tr"),
        Language::Ar => reveal_strlit("ar"),
        Language::Th => reveal_strlit("th"),
        Language::Vi => reveal_strlit("vi"),
        Language::Id => reveal_strlit("id"),
        Language::Sv => reveal_strlit("sv"),
        Language::Da => reveal_strlit("da"),
        Language::Nb => reveal_strlit("nb"),
        Language::Fi => reveal_strlit("fi"),
        Language::Cs => reveal_strlit("cs"),
        Language::Uk => reveal_strlit("uk"),
    }
}

proof fn lemma_not_prefix_at(s: Seq<char>, p: Seq<char>, k: int)
    requires
        0 <= k < p.len(),
        k < s.len(),
        s[k] != p[k],
    ensures
        !has_prefix(s, p),
{
    if has_prefix(s, p) {
        assert(s.subrange(0, p.len() as int)[k] == s[k]);
    }
}

proof fn lemma_code_round_trip_en()
    ensures
        locale_language(ascii_lowercase(language_code(Language::En))) == Language::En,
{
    reveal_strlit("en");
    let n = dash_normalized(ascii_lowercase("en"@));
    assert(n =~= seq!['e', 'n']);
    reveal_strlit("zh-hant");
    assert(!has_prefix(n, "zh-hant"@));
    reveal_strlit("zh-tw");
    assert(!has_prefix(n, "zh-tw"@));
    reveal_strlit("zh-hk");
    assert(!has_prefix(n, "zh-hk"@));
    reveal_strlit("zh-mo");
    assert(!has_prefix(n, "zh-mo"@));
    reveal_strlit("zh-cht");
    assert(!has_prefix(n, "zh-cht"@));
    reveal_strlit("zh");
    lemma_not_prefix_at(n, "zh"@, 0);
    reveal_strlit("ja");
    lemma_not_prefix_at(n, "ja"@, 0);
    reveal_strlit("ko");
    lemma_not_prefix_at(n, "ko"@, 0);
    reveal_strlit("fr");
    lemma_not_prefix_at(n, "fr"@, 0);
    reveal_strlit("de");
    lemma_not_prefix_at(n, "de"@, 0);
    reveal_strlit("es");
    lemma_not_prefix_at(n, "es"@, 1);
    reveal_strlit("pt");
    lemma_not_prefix_at(n, "pt"@, 0);
    reveal_strlit("it");
    lemma_not_prefix_at(n, "it"@, 0);
    reveal_strlit("ru");
    lemma_not_prefix_at(n, "ru"@, 0);
    reveal_strlit("nl");
    lemma_not_prefix_at(n, "nl"@, 0);
    reveal_strlit("pl");
    lemma_not_prefix_at(n, "pl"@, 0);
    reveal_strlit("tr");
    lemma_not_prefix_at(n, "tr"@, 0);
    reveal_strlit("ar");
    lemma_not_prefix_at(n, "ar"@, 0);
    reveal_strlit("th");
    lemma_not_prefix_at(n, "th"@, 0);
    reveal_strlit("vi");
    lemma_not_prefix_at(n, "vi"@, 0);
    reveal_strlit("id");
    lemma_not_prefix_at(n, "id"@, 0);
    reveal_strlit("sv");
    lemma_not_prefix_at(n, "sv"@, 0);
    reveal_strlit("da");
    lemma_not_prefix_at(n, "da"@, 0);
    reveal_strlit("nb");
    lemma_not_prefix_at(n, "nb"@, 0);
    reveal_strlit("no");
    lemma_not_prefix_at(n, "no"@, 0);
    reveal_strlit("fi");
    lemma_not_prefix_at(n, "fi"@, 0);
    reveal_strlit("cs");
    lemma_not_prefix_at(n, "cs"@, 0);
    reveal_strlit("uk");
    lemma_not_prefix_at(n, "uk"@, 0);
}

proof fn lemma_code_round_trip_zh_hans()
    ensures
        locale_language(ascii_lowercase(language_code(Language::ZhHans))) == Language::ZhHans,
{
    reveal_strlit("zh-Hans");
    let n = dash_normalized(ascii_lowercase("zh-Hans"@));
    assert(ascii_lower('H') == 'h');
    assert(n =~= seq!['z', 'h', '-', 'h', 'a', 'n', 's']);
    reveal_strlit("zh-hant");
    lemma_not_prefix_at(n, "zh-hant"@, 6);
    reveal_strlit("zh-tw");
    lemma_not_prefix_at(n, "zh-tw"@, 3);
    reveal_strlit("zh-hk");
    lemma_not_prefix_at(n, "zh-hk"@, 4);
    reveal_strlit("zh-mo");
    lemma_not_prefix_at(n, "zh-mo"@, 3);
    reveal_strlit("zh-cht");
    lemma_not_prefix_at(n, "zh-cht"@, 3);
    reveal_strlit("zh");
    assert(n.subrange(0, 2) =~= "zh"@);
}

proof fn lemma_code_round_trip_zh_hant()
    ensures
        locale_language(ascii_lowercase(language_code(Language::ZhHant))) == Language::ZhHant,
{
    reveal_strlit("zh-Hant");
    let n = dash_normalized(ascii_lowercase("zh-Hant"@));
    assert(ascii_lower('H') == 'h');
    assert(n =~= seq!['z', 'h', '-', 'h', 'a', 'n', 't']);
    reveal_strlit("zh-hant");
    assert(n.subrange(0, 7) =~= "zh-hant"@);
}

proof fn lemma_code_round_trip_ja()
    ensures
        locale_language(ascii_lowercase(language_code(Language::Ja))) == Language::Ja,
{
    reveal_strlit("ja");
    let n = dash_normalized(ascii_lowercase("ja"@));
    assert(n =~= seq!['j', 'a']);
    reveal_strlit("zh-hant");
    assert(!has_prefix(n, "zh-hant"@));
    reveal_strlit("zh-tw");
    assert(!has_prefix(n, "zh-tw"@));
    reveal_strlit("zh-hk");
    assert(!has_prefix(n, "zh-hk"@));
    reveal_strlit("zh-mo");
    assert(!has_prefix(n, "zh-mo"@));
    reveal_strlit("zh-cht");
    assert(!has_prefix(n, "zh-cht"@));
    reveal_strlit("zh");
    lemma_not_prefix_at(n, "zh"@, 0);
    reveal_strlit("ja");
    assert(n.subrange(0, 2) =~= "ja"@);
}

proof fn lemma_code_round_trip_ko()
    ensures
        locale_language(ascii_lowercase(language_code(Language::Ko))) == Language::Ko,
{
    reveal_strlit("ko");
    let n = dash_normalized(ascii_lowercase("ko"@));
    assert(n =~= seq!['k', 'o']);
    reveal_strlit("zh-hant");
    assert(!has_prefix(n, "zh-hant"@));
    reveal_strlit("zh-tw");
    assert(!has_prefix(n, "zh-tw"@));
    reveal_strlit("zh-hk");
    assert(!has_prefix(n, "zh-hk"@));
    reveal_strlit("zh-mo");
    assert(!has_prefix(n, "zh-mo"@));
    reveal_strlit("zh-cht");
    assert(!has_prefix(n, "zh-cht"@));
    reveal_strlit("zh");
    lemma_not_prefix_at(n, "zh"@, 0);
    reveal_strlit("ja");
    lemma_not_prefix_at(n, "ja"@, 0);
    reveal_strlit("ko");
    assert(n.subrange(0, 2) =~= "ko"@);
}

proof fn lemma_code_round_trip_fr()
    ensures
        locale_language(ascii_lowercase(language_code(Language::Fr))) == Language::Fr,
{
    reveal_strlit("fr");
    let n = dash_normalized(ascii_lowercase("fr"@));
    assert(n =~= seq!['f', 'r']);
    reveal_strlit("zh-hant");
    assert(!has_prefix(n, "zh-hant"@));
    reveal_strlit("zh-tw");
    assert(!has_prefix(n, "zh-tw"@));
    reveal_strlit("zh-hk");
    assert(!has_prefix(n, "zh-hk"@));
    reveal_strlit("zh-mo");
    assert(!has_prefix(n, "zh-mo"@));
    reveal_strlit("zh-cht");
    assert(!has_prefix(n, "zh-cht"@));
    reveal_strlit("zh");
    lemma_not_prefix_at(n, "zh"@, 0);
    reveal_strlit("ja");
    lemma_not_prefix_at(n, "ja"@, 0);
    reveal_strlit("ko");
    lemma_not_prefix_at(n, "ko"@, 0);
    reveal_strlit("fr");
    assert(n.subrange(0, 2) =~= "fr"@);
}

proof fn lemma_code_round_trip_de()
    ensures
        locale_language(ascii_lowercase(language_code(Language::De))) == Language::De,
{
    reveal_strlit("de");
    let n = dash_normalized(ascii_lowercase("de"@));
    assert(n =~= seq!['d', 'e']);
    reveal_strlit("zh-hant");
    assert(!has_prefix(n, "zh-hant"@));
    reveal_strlit("zh-tw");
    assert(!has_prefix(n, "zh-tw"@));
    reveal_strlit("zh-hk");
    assert(!has_prefix(n, "zh-hk"@));
    reveal_strlit("zh-mo");
    assert(!has_prefix(n, "zh-mo"@));
    reveal_strlit("zh-cht");
    assert(!has_prefix(n, "zh-cht"@));
    reveal_strlit("zh");
    lemma_not_prefix_at(n, "zh"@, 0);
    reveal_strlit("ja");
    lemma_not_prefix_at(n, "ja"@, 0);
    reveal_strlit("ko");
    lemma_not_prefix_at(n, "ko"@, 0);
    reveal_strlit("fr");
    lemma_not_prefix_at(n, "fr"@, 0);
    reveal_strlit("de");
    assert(n.subrange(0, 2) =~= "de"@);
}

proof fn lemma_code_round_trip_es()
    ensures
        locale_language(ascii_lowercase(language_code(Language::Es))) == Language::Es,
{
    reveal_strlit("es");
    let n = dash_normalized(ascii_lowercase("es"@));
    assert(n =~= seq!['e', 's']);
    reveal_strlit("zh-hant");
    assert(!has_prefix(n, "zh-hant"@));
    reveal_strlit("zh-tw");
    assert(!has_prefix(n, "zh-tw"@));
    reveal_strlit("zh-hk");
    assert(!has_prefix(n, "zh-hk"@));
    reveal_strlit("zh-mo");
    assert(!has_prefix(n, "zh-mo"@));
    reveal_strlit("zh-cht");
    assert(!has_prefix(n, "zh-cht"@));
    reveal_strlit("zh");
    lemma_not_prefix_at(n, "zh"@, 0);
    reveal_strlit("ja");
    lemma_not_prefix_at(n, "ja"@, 0);
    reveal_strlit("ko");
    lemma_not_prefix_at(n, "ko"@, 0);
    reveal_strlit("fr");
    lemma_not_prefix_at(n, "fr"@, 0);
    reveal_strlit("de");
    lemma_not_prefix_at(n, "de"@, 0);
    reveal_strlit("es");
    assert(n.subrange(0, 2) =~= "es"@);
}

proof fn lemma_code_round_trip_pt()
    ensures
        locale_language(ascii_lowercase(language_code(Language::Pt))) == Language::Pt,
{
    reveal_strlit("pt");
    let n = dash_normalized(ascii_lowercase("pt"@));
    assert(n =~= seq!['p', 't']);
    reveal_strlit("zh-hant");
    assert(!has_prefix(n, "zh-hant"@));
    reveal_strlit("zh-tw");
    assert(!has_prefix(n, "zh-tw"@));
    reveal_strlit("zh-hk");
    assert(!has_prefix(n, "zh-hk"@));
    reveal_strlit("zh-mo");
    assert(!has_prefix(n, "zh-mo"@));
    reveal_strlit("zh-cht");
    assert(!has_prefix(n, "zh-cht"@));
    reveal_strlit("zh");
    lemma_not_prefix_at(n, "zh"@, 0);
    reveal_strlit("ja");
    lemma_not_prefix_at(n, "ja"@, 0);
    reveal_strlit("ko");
    lemma_not_prefix_at(n, "ko"@, 0);
    reveal_strlit("fr");
    lemma_not_prefix_at(n, "fr"@, 0);
    reveal_strlit("de");
    lemma_not_prefix_at(n, "de"@, 0);
    reveal_strlit("es");
    lemma_not_prefix_at(n, "es"@, 0);
    reveal_strlit("pt");
    assert(n.subrange(0, 2) =~= "pt"@);
}

proof fn lemma_code_round_trip_it()
    ensures
        locale_language(ascii_lowercase(language_code(Language::It))) == Language::It,
{
    reveal_strlit("it");
    let n = dash_normalized(ascii_lowercase("it"@));
    assert(n =~= seq!['i', 't']);
    reveal_strlit("zh-hant");
    assert(!has_prefix(n, "zh-hant"@));
    reveal_strlit("zh-tw");
    assert(!has_prefix(n, "zh-tw"@));
    reveal_strlit("zh-hk");
    assert(!has_prefix(n, "zh-hk"@));
    reveal_strlit("zh-mo");
    assert(!has_prefix(n, "zh-mo"@));
    reveal_strlit("zh-cht");
    assert(!has_prefix(n, "zh-cht"@));
    reveal_strlit("zh");
    lemma_not_prefix_at(n, "zh"@, 0);
    reveal_strlit("ja");
    lemma_not_prefix_at(n, "ja"@, 0);
    reveal_strlit("ko");
    lemma_not_prefix_at(n, "ko"@, 0);
    reveal_strlit("fr");
    lemma_not_prefix_at(n, "fr"@, 0);
    reveal_strlit("de");
    lemma_not_prefix_at(n, "de"@, 0);
    reveal_strlit("es");
    lemma_not_prefix_at(n, "es"@, 0);
    reveal_strlit("pt");
    lemma_not_prefix_at(n, "pt"@, 0);
    reveal_strlit("it");
    assert(n.subrange(0, 2) =~= "it"@);
}

proof fn lemma_code_round_trip_ru()
    ensures
        locale_language(ascii_lowercase(language_code(Language::Ru))) == Language::Ru,
{
    reveal_strlit("ru");
    let n = dash_normalized(ascii_lowercase("ru"@));
    assert(n =~= seq!['r', 'u']);
    reveal_strlit("zh-hant");
    assert(!has_prefix(n, "zh-hant"@));
    reveal_strlit("zh-tw");
    assert(!has_prefix(n, "zh-tw"@));
    reveal_strlit("zh-hk");
    assert(!has_prefix(n, "zh-hk"@));
    reveal_strlit("zh-mo");
    assert(!has_prefix(n, "zh-mo"@));
    reveal_strlit("zh-cht");
    assert(!has_prefix(n, "zh-cht"@));
    reveal_strlit("zh");
    lemma_not_prefix_at(n, "zh"@, 0);
    reveal_strlit("ja");
    lemma_not_prefix_at(n, "ja"@, 0);
    reveal_strlit("ko");
    lemma_not_prefix_at(n, "ko"@, 0);
    reveal_strlit("fr");
    lemma_not_prefix_at(n, "fr"@, 0);
    reveal_strlit("de");
    lemma_not_prefix_at(n, "de"@, 0);
    reveal_strlit("es");
    lemma_not_prefix_at(n, "es"@, 0);
    reveal_strlit("pt");
    lemma_not_prefix_at(n, "pt"@, 0);
    reveal_strlit("it");
    lemma_not_prefix_at(n, "it"@, 0);
    reveal_strlit("ru");
    assert(n.subrange(0, 2) =~= "ru"@);
}

proof fn lemma_code_round_trip_nl()
    ensures
        locale_language(ascii_lowercase(language_code(Language::Nl))) == Language::Nl,
{
    reveal_strlit("nl");
    let n = dash_normalized(ascii_lowercase("nl"@));
    assert(n =~= seq!['n', 'l']);
    reveal_strlit("zh-hant");
    assert(!has_prefix(n, "zh-hant"@));
    reveal_strlit("zh-tw");
    assert(!has_prefix(n, "zh-tw"@));
    reveal_strlit("zh-hk");
    assert(!has_prefix(n, "zh-hk"@));
    reveal_strlit("zh-mo");
    assert(!has_prefix(n, "zh-mo"@));
    reveal_strlit("zh-cht");
    assert(!has_prefix(n, "zh-cht"@));
    reveal_strlit("zh");
    lemma_not_prefix_at(n, "zh"@, 0);
    reveal_strlit("ja");
    lemma_not_prefix_at(n, "ja"@, 0);
    reveal_strlit("ko");
    lemma_not_prefix_at(n, "ko"@, 0);
    reveal_strlit("fr");
    lemma_not_prefix_at(n, "fr"@, 0);
    reveal_strlit("de");
    lemma_not_prefix_at(n, "de"@, 0);
    reveal_strlit("es");
    lemma_not_prefix_at(n, "es"@, 0);
    reveal_strlit("pt");
    lemma_not_prefix_at(n, "pt"@, 0);
    reveal_strlit("it");
    lemma_not_prefix_at(n, "it"@, 0);
    reveal_strlit("ru");
    lemma_not_prefix_at(n, "ru"@, 0);
    reveal_strlit("nl");
    assert(n.subrange(0, 2) =~= "nl"@);
}

proof fn lemma_code_round_trip_pl()
    ensures
        locale_language(ascii_lowercase(language_code(Language::Pl))) == Language::Pl,
{
    reveal_strlit("pl");
    let n = dash_normalized(ascii_lowercase("pl"@));
    assert(n =~= seq!['p', 'l']);
    reveal_strlit("zh-hant");
    assert(!has_prefix(n, "zh-hant"@));
    reveal_strlit("zh-tw");
    assert(!has_prefix(n, "zh-tw"@));
    reveal_strlit("zh-hk");
    assert(!has_prefix(n, "zh-hk"@));
    reveal_strlit("zh-mo");
    assert(!has_prefix(n, "zh-mo"@));
    reveal_strlit("zh-cht");
    assert(!has_prefix(n, "zh-cht"@));
    reveal_strlit("zh");
    lemma_not_prefix_at(n, "zh"@, 0);
    reveal_strlit("ja");
    lemma_not_prefix_at(n, "ja"@, 0);
    reveal_strlit("ko");
    lemma_not_prefix_at(n, "ko"@, 0);
    reveal_strlit("fr");
    lemma_not_prefix_at(n, "fr"@, 0);
    reveal_strlit("de");
    lemma_not_prefix_at(n, "de"@, 0);
    reveal_strlit("es");
    lemma_not_prefix_at(n, "es"@, 0);
    reveal_strlit("pt");
    lemma_not_prefix_at(n, "pt"@, 1);
    reveal_strlit("it");
    lemma_not_prefix_at(n, "it"@, 0);
    reveal_strlit("ru");
    lemma_not_prefix_at(n, "ru"@, 0);
    reveal_strlit("nl");
    lemma_not_prefix_at(n, "nl"@, 0);
    reveal_strlit("pl");
    assert(n.subrange(0, 2) =~= "pl"@);
}

proof fn lemma_code_round_trip_tr()
    ensures
        locale_language(ascii_lowercase(language_code(Language::Tr))) == Language::Tr,
{
    reveal_strlit("tr");
    let n = dash_normalized(ascii_lowercase("tr"@));
    assert(n =~= seq!['t', 'r']);
    reveal_strlit("zh-hant");
    assert(!has_prefix(n, "zh-hant"@));
    reveal_strlit("zh-tw");
    assert(!has_prefix(n, "zh-tw"@));
    reveal_strlit("zh-hk");
    assert(!has_prefix(n, "zh-hk"@));
    reveal_strlit("zh-mo");
    assert(!has_prefix(n, "zh-mo"@));
    reveal_strlit("zh-cht");
    assert(!has_prefix(n, "zh-cht"@));
    reveal_strlit("zh");
    lemma_not_prefix_at(n, "zh"@, 0);
    reveal_strlit("ja");
    lemma_not_prefix_at(n, "ja"@, 0);
    reveal_strlit("ko");
    lemma_not_prefix_at(n, "ko"@, 0);
    reveal_strlit("fr");
    lemma_not_prefix_at(n, "fr"@, 0);
    reveal_strlit("de");
    lemma_not_prefix_at(n, "de"@, 0);
    reveal_strlit("es");
    lemma_not_prefix_at(n, "es"@, 0);
    reveal_strlit("pt");
    lemma_not_prefix_at(n, "pt"@, 0);
    reveal_strlit("it");
    lemma_not_prefix_at(n, "it"@, 0);
    reveal_strlit("ru");
    lemma_not_prefix_at(n, "ru"@, 0);
    reveal_strlit("nl");
    lemma_not_prefix_at(n, "nl"@, 0);
    reveal_strlit("pl");
    lemma_not_prefix_at(n, "pl"@, 0);
    reveal_strlit("tr");
    assert(n.subrange(0, 2) =~= "tr"@);
}

proof fn lemma_code_round_trip_ar()
    ensures
        locale_language(ascii_lowercase(language_code(Language::Ar))) == Language::Ar,
{
    reveal_strlit("ar");
    let n = dash_normalized(ascii_lowercase("ar"@));
    assert(n =~= seq!['a', 'r']);
    reveal_strlit("zh-hant");
    assert(!has_prefix(n, "zh-hant"@));
    reveal_strlit("zh-tw");
    assert(!has_prefix(n, "zh-tw"@));
    reveal_strlit("zh-hk");
    assert(!has_prefix(n, "zh-hk"@));
    reveal_strlit("zh-mo");
    assert(!has_prefix(n, "zh-mo"@));
    reveal_strlit("zh-cht");
    assert(!has_prefix(n, "zh-cht"@));
    reveal_strlit("zh");
    lemma_not_prefix_at(n, "zh"@, 0);
    reveal_strlit("ja");
    lemma_not_prefix_at(n, "ja"@, 0);
    reveal_strlit("ko");
    lemma_not_prefix_at(n, "ko"@, 0);
    reveal_strlit("fr");
    lemma_not_prefix_at(n, "fr"@, 0);
    reveal_strlit("de");
    lemma_not_prefix_at(n, "de"@, 0);
    reveal_strlit("es");
    lemma_not_prefix_at(n, "es"@, 0);
    reveal_strlit("pt");
    lemma_not_prefix_at(n, "pt"@, 0);
    reveal_strlit("it");
    lemma_not_prefix_at(n, "it"@, 0);
    reveal_strlit("ru");
    lemma_not_prefix_at(n, "ru"@, 0);
    reveal_strlit("nl");
    lemma_not_prefix_at(n, "nl"@, 0);
    reveal_strlit("pl");
    lemma_not_prefix_at(n, "pl"@, 0);
    reveal_strlit("tr");
    lemma_not_prefix_at(n, "tr"@, 0);
    reveal_strlit("ar");
    assert(n.subrange(0, 2) =~= "ar"@);
}

proof fn lemma_code_round_trip_th()
    ensures
        locale_language(ascii_lowercase(language_code(Language::Th))) == Language::Th,
{
    reveal_strlit("th");
    let n = dash_normalized(ascii_lowercase("th"@));
    assert(n =~= seq!['t', 'h']);
    reveal_strlit("zh-hant");
    assert(!has_prefix(n, "zh-hant"@));
    reveal_strlit("zh-tw");
    assert(!has_prefix(n, "zh-tw"@));
    reveal_strlit("zh-hk");
    assert(!has_prefix(n, "zh-hk"@));
    reveal_strlit("zh-mo");
    assert(!has_prefix(n, "zh-mo"@));
    reveal_strlit("zh-cht");
    assert(!has_prefix(n, "zh-cht"@));
    reveal_strlit("zh");
    lemma_not_prefix_at(n, "zh"@, 0);
    reveal_strlit("ja");
    lemma_not_prefix_at(n, "ja"@, 0);
    reveal_strlit("ko");
    lemma_not_prefix_at(n, "ko"@, 0);
    reveal_strlit("fr");
    lemma_not_prefix_at(n, "fr"@, 0);
    reveal_strlit("de");
    lemma_not_prefix_at(n, "de"@, 0);
    reveal_strlit("es");
    lemma_not_prefix_at(n, "es"@, 0);
    reveal_strlit("pt");
    lemma_not_prefix_at(n, "pt"@, 0);
    reveal_strlit("it");
    lemma_not_prefix_at(n, "it"@, 0);
    reveal_strlit("ru");
    lemma_not_prefix_at(n, "ru"@, 0);
    reveal_strlit("nl");
    lemma_not_prefix_at(n, "nl"@, 0);
    reveal_strlit("pl");
    lemma_not_prefix_at(n, "pl"@, 0);
    reveal_strlit("tr");
    lemma_not_prefix_at(n, "tr"@, 1);
    reveal_strlit("ar");
    lemma_not_prefix_at(n, "ar"@, 0);
    reveal_strlit("th");
    assert(n.subrange(0, 2) =~= "th"@);
}

proof fn lemma_code_round_trip_vi()
    ensures
        locale_language(ascii_lowercase(language_code(Language::Vi))) == Language::Vi,
{
    reveal_strlit("vi");
    let n = dash_normalized(ascii_lowercase("vi"@));
    assert(n =~= seq!['v', 'i']);
    reveal_strlit("zh-hant");
    assert(!has_prefix(n, "zh-hant"@));
    reveal_strlit("zh-tw");
    assert(!has_prefix(n, "zh-tw"@));
    reveal_strlit("zh-hk");
    assert(!has_prefix(n, "zh-hk"@));
    reveal_strlit("zh-mo");
    assert(!has_prefix(n, "zh-mo"@));
    reveal_strlit("zh-cht");
    assert(!has_prefix(n, "zh-cht"@));
    reveal_strlit("zh");
    lemma_not_prefix_at(n, "zh"@, 0);
    reveal_strlit("ja");
    lemma_not_prefix_at(n, "ja"@, 0);
    reveal_strlit("ko");
    lemma_not_prefix_at(n, "ko"@, 0);
    reveal_strlit("fr");
    lemma_not_prefix_at(n, "fr"@, 0);
    reveal_strlit("de");
    lemma_not_prefix_at(n, "de"@, 0);
    reveal_strlit("es");
    lemma_not_prefix_at(n, "es"@, 0);
    reveal_strlit("pt");
    lemma_not_prefix_at(n, "pt"@, 0);
    reveal_strlit("it");
    lemma_not_prefix_at(n, "it"@, 0);
    reveal_strlit("ru");
    lemma_not_prefix_at(n, "ru"@, 0);
    reveal_strlit("nl");
    lemma_not_prefix_at(n, "nl"@, 0);
    reveal_strlit("pl");
    lemma_not_prefix_at(n, "pl"@, 0);
    reveal_strlit("tr");
    lemma_not_prefix_at(n, "tr"@, 0);
    reveal_strlit("ar");
    lemma_not_prefix_at(n, "ar"@, 0);
    reveal_strlit("th");
    lemma_not_prefix_at(n, "th"@, 0);
    reveal_strlit("vi");
    assert(n.subrange(0, 2) =~= "vi"@);
}

proof fn lemma_code_round_trip_id()
    ensures
        locale_language(ascii_lowercase(language_code(Language::Id))) == Language::Id,
{
    reveal_strlit("id");
    let n = dash_normalized(ascii_lowercase("id"@));
    assert(n =~= seq!['i', 'd']);
    reveal_strlit("zh-hant");
    assert(!has_prefix(n, "zh-hant"@));
    reveal_strlit("zh-tw");
    assert(!has_prefix(n, "zh-tw"@));
    reveal_strlit("zh-hk");
    assert(!has_prefix(n, "zh-hk"@));
    reveal_strlit("zh-mo");
    assert(!has_prefix(n, "zh-mo"@));
    reveal_strlit("zh-cht");
    assert(!has_prefix(n, "zh-cht"@));
    reveal_strlit("zh");
    lemma_not_prefix_at(n, "zh"@, 0);
    reveal_strlit("ja");
    lemma_not_prefix_at(n, "ja"@, 0);
    reveal_strlit("ko");
    lemma_not_prefix_at(n, "ko"@, 0);
    reveal_strlit("fr");
    lemma_not_prefix_at(n, "fr"@, 0);
    reveal_strlit("de");
    lemma_not_prefix_at(n, "de"@, 0);
    reveal_strlit("es");
    lemma_not_prefix_at(n, "es"@, 0);
    reveal_strlit("pt");
    lemma_not_prefix_at(n, "pt"@, 0);
    reveal_strlit("it");
    lemma_not_prefix_at(n, "it"@, 1);
    reveal_strlit("ru");
    lemma_not_prefix_at(n, "ru"@, 0);
    reveal_strlit("nl");
    lemma_not_prefix_at(n, "nl"@, 0);
    reveal_strlit("pl");
    lemma_not_prefix_at(n, "pl"@, 0);
    reveal_strlit("tr");
    lemma_not_prefix_at(n, "tr"@, 0);
    reveal_strlit("ar");
    lemma_not_prefix_at(n, "ar"@, 0);
    reveal_strlit("th");
    lemma_not_prefix_at(n, "th"@, 0);
    reveal_strlit("vi");
    lemma_not_prefix_at(n, "vi"@, 0);
    reveal_strlit("id");
    assert(n.subrange(0, 2) =~= "id"@);
}

proof fn lemma_code_round_trip_sv()
    ensures
        locale_language(ascii_lowercase(language_code(Language::Sv))) == Language::Sv,
{
    reveal_strlit("sv");
    let n = dash_normalized(ascii_lowercase("sv"@));
    assert(n =~= seq!['s', 'v']);
    reveal_strlit("zh-hant");
    assert(!has_prefix(n, "zh-hant"@));
    reveal_strlit("zh-tw");
    assert(!has_prefix(n, "zh-tw"@));
    reveal_strlit("zh-hk");
    assert(!has_prefix(n, "zh-hk"@));
    reveal_strlit("zh-mo");
    assert(!has_prefix(n, "zh-mo"@));
    reveal_strlit("zh-cht");
    assert(!has_prefix(n, "zh-cht"@));
    reveal_strlit("zh");
    lemma_not_prefix_at(n, "zh"@, 0);
    reveal_strlit("ja");
    lemma_not_prefix_at(n, "ja"@, 0);
    reveal_strlit("ko");
    lemma_not_prefix_at(n, "ko"@, 0);
    reveal_strlit("fr");
    lemma_not_prefix_at(n, "fr"@, 0);
    reveal_strlit("de");
    lemma_not_prefix_at(n, "de"@, 0);
    reveal_strlit("es");
    lemma_not_prefix_at(n, "es"@, 0);
    reveal_strlit("pt");
    lemma_not_prefix_at(n, "pt"@, 0);
    reveal_strlit("it");
    lemma_not_prefix_at(n, "it"@, 0);
    reveal_strlit("ru");
    lemma_not_prefix_at(n, "ru"@, 0);
    reveal_strlit("nl");
    lemma_not_prefix_at(n, "nl"@, 0);
    reveal_strlit("pl");
    lemma_not_prefix_at(n, "pl"@, 0);
    reveal_strlit("tr");
    lemma_not_prefix_at(n, "tr"@, 0);
    reveal_strlit("ar");
    lemma_not_prefix_at(n, "ar"@, 0);
    reveal_strlit("th");
    lemma_not_prefix_at(n, "th"@, 0);
    reveal_strlit("vi");
    lemma_not_prefix_at(n, "vi"@, 0);
    reveal_strlit("id");
    lemma_not_prefix_at(n, "id"@, 0);
    reveal_strlit("sv");
    assert(n.subrange(0, 2) =~= "sv"@);
}

proof fn lemma_code_round_trip_da()
    ensures
        locale_language(ascii_lowercase(language_code(Language::Da))) == Language::Da,
{
    reveal_strlit("da");
    let n = dash_normalized(ascii_lowercase("da"@));
    assert(n =~= seq!['d', 'a']);
    reveal_strlit("zh-hant");
    assert(!has_prefix(n, "zh-hant"@));
    reveal_strlit("zh-tw");
    assert(!has_prefix(n, "zh-tw"@));
    reveal_strlit("zh-hk");
    assert(!has_prefix(n, "zh-hk"@));
    reveal_strlit("zh-mo");
    assert(!has_prefix(n, "zh-mo"@));
    reveal_strlit("zh-cht");
    assert(!has_prefix(n, "zh-cht"@));
    reveal_strlit("zh");
    lemma_not_prefix_at(n, "zh"@, 0);
    reveal_strlit("ja");
    lemma_not_prefix_at(n, "ja"@, 0);
    reveal_strlit("ko");
    lemma_not_prefix_at(n, "ko"@, 0);
    reveal_strlit("fr");
    lemma_not_prefix_at(n, "fr"@, 0);
    reveal_strlit("de");
    lemma_not_prefix_at(n, "de"@, 1);
    reveal_strlit("es");
    lemma_not_prefix_at(n, "es"@, 0);
    reveal_strlit("pt");
    lemma_not_prefix_at(n, "pt"@, 0);
    reveal_strlit("it");
    lemma_not_prefix_at(n, "it"@, 0);
    reveal_strlit("ru");
    lemma_not_prefix_at(n, "ru"@, 0);
    reveal_strlit("nl");
    lemma_not_prefix_at(n, "nl"@, 0);
    reveal_strlit("pl");
    lemma_not_prefix_at(n, "pl"@, 0);
    reveal_strlit("tr");
    lemma_not_prefix_at(n, "tr"@, 0);
    reveal_strlit("ar");
    lemma_not_prefix_at(n, "ar"@, 0);
    reveal_strlit("th");
    lemma_not_prefix_at(n, "th"@, 0);
    reveal_strlit("vi");
    lemma_not_prefix_at(n, "vi"@, 0);
    reveal_strlit("id");
    lemma_not_prefix_at(n, "id"@, 0);
    reveal_strlit("sv");
    lemma_not_prefix_at(n, "sv"@, 0);
    reveal_strlit("da");
    assert(n.subrange(0, 2) =~= "da"@);
}

proof fn lemma_code_round_trip_nb()
    ensures
        locale_language(ascii_lowercase(language_code(Language::Nb))) == Language::Nb,
{
    reveal_strlit("nb");
    let n = dash_normalized(ascii_lowercase("nb"@));
    assert(n =~= seq!['n', 'b']);
    reveal_strlit("zh-hant");
    assert(!has_prefix(n, "zh-hant"@));
    reveal_strlit("zh-tw");
    assert(!has_prefix(n, "zh-tw"@));
    reveal_strlit("zh-hk");
    assert(!has_prefix(n, "zh-hk"@));
    reveal_strlit("zh-mo");
    assert(!has_prefix(n, "zh-mo"@));
    reveal_strlit("zh-cht");
    assert(!has_prefix(n, "zh-cht"@));
    reveal_strlit("zh");
    lemma_not_prefix_at(n, "zh"@, 0);
    reveal_strlit("ja");
    lemma_not_prefix_at(n, "ja"@, 0);
    reveal_strlit("ko");
    lemma_not_prefix_at(n, "ko"@, 0);
    reveal_strlit("fr");
    lemma_not_prefix_at(n, "fr"@, 0);
    reveal_strlit("de");
    lemma_not_prefix_at(n, "de"@, 0);
    reveal_strlit("es");
    lemma_not_prefix_at(n, "es"@, 0);
    reveal_strlit("pt");
    lemma_not_prefix_at(n, "pt"@, 0);
    reveal_strlit("it");
    lemma_not_prefix_at(n, "it"@, 0);
    reveal_strlit("ru");
    lemma_not_prefix_at(n, "ru"@, 0);
    reveal_strlit("nl");
    lemma_not_prefix_at(n, "nl"@, 1);
    reveal_strlit("pl");
    lemma_not_prefix_at(n, "pl"@, 0);
    reveal_strlit("tr");
    lemma_not_prefix_at(n, "tr"@, 0);
    reveal_strlit("ar");
    lemma_not_prefix_at(n, "ar"@, 0);
    reveal_strlit("th");
    lemma_not_prefix_at(n, "th"@, 0);
    reveal_strlit("vi");
    lemma_not_prefix_at(n, "vi"@, 0);
    reveal_strlit("id");
    lemma_not_prefix_at(n, "id"@, 0);
    reveal_strlit("sv");
    lemma_not_prefix_at(n, "sv"@, 0);
    reveal_strlit("da");
    lemma_not_prefix_at(n, "da"@, 0);
    reveal_strlit("nb");
    assert(n.subrange(0, 2) =~= "nb"@);
}

proof fn lemma_code_round_trip_fi()
    ensures
        locale_language(ascii_lowercase(language_code(Language::Fi))) == Language::Fi,
{
    reveal_strlit("fi");
    let n = dash_normalized(ascii_lowercase("fi"@));
    assert(n =~= seq!['f', 'i']);
    reveal_strlit("zh-hant");
    assert(!has_prefix(n, "zh-hant"@));
    reveal_strlit("zh-tw");
    assert(!has_prefix(n, "zh-tw"@));
    reveal_strlit("zh-hk");
    assert(!has_prefix(n, "zh-hk"@));
    reveal_strlit("zh-mo");
    assert(!has_prefix(n, "zh-mo"@));
    reveal_strlit("zh-cht");
    assert(!has_prefix(n, "zh-cht"@));
    reveal_strlit("zh");
    lemma_not_prefix_at(n, "zh"@, 0);
    reveal_strlit("ja");
    lemma_not_prefix_at(n, "ja"@, 0);
    reveal_strlit("ko");
    lemma_not_prefix_at(n, "ko"@, 0);
    reveal_strlit("fr");
    lemma_not_prefix_at(n, "fr"@, 1);
    reveal_strlit("de");
    lemma_not_prefix_at(n, "de"@, 0);
    reveal_strlit("es");
    lemma_not_prefix_at(n, "es"@, 0);
    reveal_strlit("pt");
    lemma_not_prefix_at(n, "pt"@, 0);
    reveal_strlit("it");
    lemma_not_prefix_at(n, "it"@, 0);
    reveal_strlit("ru");
    lemma_not_prefix_at(n, "ru"@, 0);
    reveal_strlit("nl");
    lemma_not_prefix_at(n, "nl"@, 0);
    reveal_strlit("pl");
    lemma_not_prefix_at(n, "pl"@, 0);
    reveal_strlit("tr");
    lemma_not_prefix_at(n, "tr"@, 0);
    reveal_strlit("ar");
    lemma_not_prefix_at(n, "ar"@, 0);
    reveal_strlit("th");
    lemma_not_prefix_at(n, "th"@, 0);
    reveal_strlit("vi");
    lemma_not_prefix_at(n, "vi"@, 0);
    reveal_strlit("id");
    lemma_not_prefix_at(n, "id"@, 0);
    reveal_strlit("sv");
    lemma_not_prefix_at(n, "sv"@, 0);
    reveal_strlit("da");
    lemma_not_prefix_at(n, "da"@, 0);
    reveal_strlit("nb");
    lemma_not_prefix_at(n, "nb"@, 0);
    reveal_strlit("no");
    lemma_not_prefix_at(n, "no"@, 0);
    reveal_strlit("fi");
    assert(n.subrange(0, 2) =~= "fi"@);
}

proof fn lemma_code_round_trip_cs()
    ensures
        locale_language(ascii_lowercase(language_code(Language::Cs))) == Language::Cs,
{
    reveal_strlit("cs");
    let n = dash_normalized(ascii_lowercase("cs"@));
    assert(n =~= seq!['c', 's']);
    reveal_strlit("zh-hant");
    assert(!has_prefix(n, "zh-hant"@));
    reveal_strlit("zh-tw");
    assert(!has_prefix(n, "zh-tw"@));
    reveal_strlit("zh-hk");
    assert(!has_prefix(n, "zh-hk"@));
    reveal_strlit("zh-mo");
    assert(!has_prefix(n, "zh-mo"@));
    reveal_strlit("zh-cht");
    assert(!has_prefix(n, "zh-cht"@));
    reveal_strlit("zh");
    lemma_not_prefix_at(n, "zh"@, 0);
    reveal_strlit("ja");
    lemma_not_prefix_at(n, "ja"@, 0);
    reveal_strlit("ko");
    lemma_not_prefix_at(n, "ko"@, 0);
    reveal_strlit("fr");
    lemma_not_prefix_at(n, "fr"@, 0);
    reveal_strlit("de");
    lemma_not_prefix_at(n, "de"@, 0);
    reveal_strlit("es");
    lemma_not_prefix_at(n, "es"@, 0);
    reveal_strlit("pt");
    lemma_not_prefix_at(n, "pt"@, 0);
    reveal_strlit("it");
    lemma_not_prefix_at(n, "it"@, 0);
    reveal_strlit("ru");
    lemma_not_prefix_at(n, "ru"@, 0);
    reveal_strlit("nl");
    lemma_not_prefix_at(n, "nl"@, 0);
    reveal_strlit("pl");
    lemma_not_prefix_at(n, "pl"@, 0);
    reveal_strlit("tr");
    lemma_not_prefix_at(n, "tr"@, 0);
    reveal_strlit("ar");
    lemma_not_prefix_at(n, "ar"@, 0);
    reveal_strlit("th");
    lemma_not_prefix_at(n, "th"@, 0);
    reveal_strlit("vi");
    lemma_not_prefix_at(n, "vi"@, 0);
    reveal_strlit("id");
    lemma_not_prefix_at(n, "id"@, 0);
    reveal_strlit("sv");
    lemma_not_prefix_at(n, "sv"@, 0);
    reveal_strlit("da");
    lemma_not_prefix_at(n, "da"@, 0);
    reveal_strlit("nb");
    lemma_not_prefix_at(n, "nb"@, 0);
    reveal_strlit("no");
    lemma_not_prefix_at(n, "no"@, 0);
    reveal_strlit("fi");
    lemma_not_prefix_at(n, "fi"@, 0);
    reveal_strlit("cs");
    assert(n.subrange(0, 2) =~= "cs"@);
}

proof fn lemma_code_round_trip_uk()
    ensures
        locale_language(ascii_lowercase(language_code(Language::Uk))) == Language::Uk,
{
    reveal_strlit("uk");
    let n = dash_normalized(ascii_lowercase("uk"@));
    assert(n =~= seq!['u', 'k']);
    reveal_strlit("zh-hant");
    assert(!has_prefix(n, "zh-hant"@));
    reveal_strlit("zh-tw");
    assert(!has_prefix(n, "zh-tw"@));
    reveal_strlit("zh-hk");
    assert(!has_prefix(n, "zh-hk"@));
    reveal_strlit("zh-mo");
    assert(!has_prefix(n, "zh-mo"@));
    reveal_strlit("zh-cht");
    assert(!has_prefix(n, "zh-cht"@));
    reveal_strlit("zh");
    lemma_not_prefix_at(n, "zh"@, 0);
    reveal_strlit("ja");
    lemma_not_prefix_at(n, "ja"@, 0);
    reveal_strlit("ko");
    lemma_not_prefix_at(n, "ko"@, 0);
    reveal_strlit("fr");
    lemma_not_prefix_at(n, "fr"@, 0);
    reveal_strlit("de");
    lemma_not_prefix_at(n, "de"@, 0);
    reveal_strlit("es");
    lemma_not_prefix_at(n, "es"@, 0);
    reveal_strlit("pt");
    lemma_not_prefix_at(n, "pt"@, 0);
    reveal_strlit("it");
    lemma_not_prefix_at(n, "it"@, 0);
    reveal_strlit("ru");
    lemma_not_prefix_at(n, "ru"@, 0);
    reveal_strlit("nl");
    lemma_not_prefix_at(n, "nl"@, 0);
    reveal_strlit("pl");
    lemma_not_prefix_at(n, "pl"@, 0);
    reveal_strlit("tr");
    lemma_not_prefix_at(n, "tr"@, 0);
    reveal_strlit("ar");
    lemma_not_prefix_at(n, "ar"@, 0);
    reveal_strlit("th");
    lemma_not_prefix_at(n, "th"@, 0);
    reveal_strlit("vi");
    lemma_not_prefix_at(n, "vi"@, 0);
    reveal_strlit("id");
    lemma_not_prefix_at(n, "id"@, 0);
    reveal_strlit("sv");
    lemma_not_prefix_at(n, "sv"@, 0);
    reveal_strlit("da");
    lemma_not_prefix_at(n, "da"@, 0);
    reveal_strlit("nb");
    lemma_not_prefix_at(n, "nb"@, 0);
    reveal_strlit("no");
    lemma_not_prefix_at(n, "no"@, 0);
    reveal_strlit("fi");
    lemma_not_prefix_at(n, "fi"@, 0);
    reveal_strlit("cs");
    lemma_not_prefix_at(n, "cs"@, 0);
    reveal_strlit("uk");
    assert(n.subrange(0, 2) =~= "uk"@);
}

/// Distinct tiers have distinct identifiers.
pub proof fn lemma_tier_identifier_injective(a: WhitelistTier, b: WhitelistTier)
    ensures
        a != b ==> tier_identifier(a) != tier_identifier(b),
{
    reveal_strlit("l1_core_os");
    reveal_strlit("l2_context_shell");
    reveal_strlit("l3_persistent_utilities");
    reveal_strlit("l4_user_config");
    reveal_strlit("l4_cli_override");
    assert(tier_identifier(a).len() != tier_identifier(b).len() || a == b);
}

/// The language a locale environment value names, if it names one: the
/// value, trimmed, must be non-blank and neither "C" nor "POSIX".
pub open spec fn env_locale_language(value: Seq<char>) -> Option<Language> {
    let t = trim(value);
    if t.len() > 0 && t != "C"@ && t != "POSIX"@ {
        Some(locale_str_language(t))
    } else {
        None
    }
}

/// The first language named in a printout of the `AppleLanguages` list: the
/// first line that, trimmed and stripped of list punctuation, is not blank.
pub open spec fn apple_languages_choice(lines: Seq<Seq<char>>) -> Option<Language>
    decreases lines.len(),
{
    if lines.len() == 0 {
        None
    } else {
        let t = strip(trim(lines[0]), list_punctuation());
        if t.len() > 0 && !has_prefix(t, "("@) {
            Some(locale_str_language(t))
        } else {
            apple_languages_choice(lines.drop_first())
        }
    }
}

impl Language {
    /// The language a locale environment variable's value names, if any.
    pub fn from_env_locale(value: &str) -> (r: Option<Self>)
        ensures
            r == env_locale_language(value@),
    {
        let t = trim_str(value);
        if t.unicode_len() > 0 && !str_equal(t, "C") && !str_equal(t, "POSIX") {
            Some(Self::from_locale_str(t))
        } else {
            None
        }
    }

    /// The first language of the system's preferred-language list, given as
    /// the text that `defaults read -g AppleLanguages` prints.
    pub fn from_apple_languages(text: &str) -> (r: Option<Self>)
        ensures
            r == apple_languages_choice(split_on(text@, newline_sep())),
    {
        let lines = split_lines(text);
        let ghost all = string_texts(lines@);
        assert(all.subrange(0, all.len() as int) == all);
        let mut i: usize = 0;
        while i < lines.len()
            invariant
                i <= lines@.len(),
                all == string_texts(lines@),
                all == split_on(text@, newline_sep()),
                apple_languages_choice(all.subrange(i as int, all.len() as int))
                    == apple_languages_choice(all),
            decreases lines.len() - i,
        {
            let t = strip_list_punctuation(trim_str(lines[i].as_str()));
            let ghost rest = all.subrange(i as int, all.len() as int);
            assert(rest[0] == lines@[i as int]@);
            assert(rest.drop_first() == all.subrange(i + 1, all.len() as int));
            if t.unicode_len() > 0 && !str_starts_with(t, "(") {
                return Some(Self::from_locale_str(t));
            }
            i = i + 1;
        }
        assert(all.subrange(all.len() as int, all.len() as int) =~= Seq::<Seq<char>>::empty());
        None
    }
}

} // verus!
