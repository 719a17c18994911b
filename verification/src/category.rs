//! Telemetry category classification based on event name prefixes.
use crate::text::{ascii_lower, is_prefix, push_str, starts_with, string_of, to_ascii_lowercase, str_eq};
use vstd::prelude::*;

verus! {

broadcast use vstd::string::group_string_axioms;

/// Telemetry category derived from an event name prefix.
#[derive(Debug, Clone, Copy, PartialEq, Eq, Structural, Hash, PartialOrd, Ord)]
pub enum Category {
    /// App usage, versions, durations, activations.
    Apps,
    /// WiFi positioning, geofencing, location visits.
    Location,
    /// WiFi scans, Bluetooth connections, signal quality.
    Network,
    /// CoreML inference, LLM usage, generative models.
    Ai,
    /// User profiling, entity relevance, personalization.
    Behavioral,
    /// Photo analysis, image recognition, camera sessions.
    Media,
    /// Messaging stats, Siri, keyboard telemetry.
    Comms,
    /// Executable measurement, keychain access.
    Security,
    /// Browsing, autofill, extensions, search, tabs.
    Safari,
    /// Power, memory, scheduling, cleanup.
    System,
    /// Uncategorized events.
    Other,
}

/// The display name of a category.
pub open spec fn category_name(c: Category) -> Seq<char> {
    match c {
        Category::Apps => "Apps"@,
        Category::Location => "Location"@,
        Category::Network => "Network"@,
        Category::Ai => "AI"@,
        Category::Behavioral => "Behavioral"@,
        Category::Media => "Media"@,
        Category::Comms => "Comms"@,
        Category::Security => "Security"@,
        Category::Safari => "Safari"@,
        Category::System => "System"@,
        Category::Other => "Other"@,
    }
}

/// The category whose lowercase name is `lowered`, if any.
pub open spec fn category_for_lower_name(lowered: Seq<char>) -> Option<Category> {
    if lowered == "apps"@ {
        Some(Category::Apps)
    } else if lowered == "location"@ {
        Some(Category::Location)
    } else if lowered == "network"@ {
        Some(Category::Network)
    } else if lowered == "ai"@ {
        Some(Category::Ai)
    } else if lowered == "behavioral"@ {
        Some(Category::Behavioral)
    } else if lowered == "media"@ {
        Some(Category::Media)
    } else if lowered == "comms"@ {
        Some(Category::Comms)
    } else if lowered == "security"@ {
        Some(Category::Security)
    } else if lowered == "safari"@ {
        Some(Category::Safari)
    } else if lowered == "system"@ {
        Some(Category::System)
    } else if lowered == "other"@ {
        Some(Category::Other)
    } else {
        None
    }
}

/// The outcome of parsing a category name: case-insensitive match on the
/// display names, else the message `unknown category: <s>`.
pub open spec fn parsed_category(s: Seq<char>) -> Result<Category, Seq<char>> {
    match category_for_lower_name(ascii_lower(s)) {
        Some(c) => Ok(c),
        None => Err("unknown category: "@ + s),
    }
}

/// The prefix rules, checked in order; the most specific prefixes come first.
pub open spec fn prefix_rules() -> Seq<(Seq<char>, Category)> {
    seq![
        ("osanalytics.appUsage"@, Category::Apps),
        ("appkit.app_config"@, Category::Apps),
        ("locationd."@, Category::Location),
        ("CoreRoutine."@, Category::Location),
        ("MicroLocation."@, Category::Location),
        ("wifi."@, Category::Network),
        ("Bluetooth."@, Category::Network),
        ("CoreML."@, Category::Ai),
        ("LLMInferenceEvent"@, Category::Ai),
        ("intelligenceplatform."@, Category::Ai),
        ("GenerativeModels."@, Category::Ai),
        ("Espresso."@, Category::Ai),
        ("proactive.PersonalizationPortrait."@, Category::Behavioral),
        ("parsecd."@, Category::Behavioral),
        ("photos."@, Category::Media),
        ("mediaanalysisd."@, Category::Media),
        ("VisionKit."@, Category::Media),
        ("camera."@, Category::Media),
        ("Messages."@, Category::Comms),
        ("Siri."@, Category::Comms),
        ("Keyboard."@, Category::Comms),
        ("syspolicy."@, Category::Security),
        ("security."@, Category::Security),
        ("Safari."@, Category::Safari),
        ("SafariShared."@, Category::Safari),
        ("power."@, Category::System),
        ("memorytools."@, Category::System),
        ("dasd."@, Category::System),
        ("cachedelete."@, Category::System),
    ]
}

/// The category of the first rule whose prefix starts `s`, or `Other`.
pub open spec fn first_rule(rules: Seq<(Seq<char>, Category)>, s: Seq<char>) -> Category
    decreases rules.len(),
{
    if rules.len() == 0 {
        Category::Other
    } else if is_prefix(rules[0].0, s) {
        rules[0].1
    } else {
        first_rule(rules.drop_first(), s)
    }
}

/// The Apple prefix that is stripped before matching.
pub open spec fn apple_prefix() -> Seq<char> {
    "com.apple."@
}

/// `s` with one leading `com.apple.` removed, if present.
pub open spec fn strip_apple(s: Seq<char>) -> Seq<char> {
    if is_prefix(apple_prefix(), s) {
        s.subrange(apple_prefix().len() as int, s.len() as int)
    } else {
        s
    }
}

/// The category of an event name.
pub open spec fn category_of(name: Seq<char>) -> Category {
    first_rule(prefix_rules(), strip_apple(name))
}

impl Category {
    /// The display name of the category (what `Display` printed).
    pub fn to_string(&self) -> (r: String)
        ensures
            r@ == category_name(*self),
    {
        match self {
            Category::Apps => string_of("Apps"),
            Category::Location => string_of("Location"),
            Category::Network => string_of("Network"),
            Category::Ai => string_of("AI"),
            Category::Behavioral => string_of("Behavioral"),
            Category::Media => string_of("Media"),
            Category::Comms => string_of("Comms"),
            Category::Security => string_of("Security"),
            Category::Safari => string_of("Safari"),
            Category::System => string_of("System"),
            Category::Other => string_of("Other"),
        }
    }

    /// Parse a category name, ignoring ASCII case.
    pub fn parse_name(s: &str) -> (r: Result<Category, String>)
        ensures
            match (r, parsed_category(s@)) {
                (Ok(c), Ok(d)) => c == d,
                (Err(e), Err(m)) => e@ == m,
                _ => false,
            },
    {
        let low = to_ascii_lowercase(s);
        let l = low.as_str();
        if str_eq(l, "apps") {
            Ok(Category::Apps)
        } else if str_eq(l, "location") {
            Ok(Category::Location)
        } else if str_eq(l, "network") {
            Ok(Category::Network)
        } else if str_eq(l, "ai") {
            Ok(Category::Ai)
        } else if str_eq(l, "behavioral") {
            Ok(Category::Behavioral)
        } else if str_eq(l, "media") {
            Ok(Category::Media)
        } else if str_eq(l, "comms") {
            Ok(Category::Comms)
        } else if str_eq(l, "security") {
            Ok(Category::Security)
        } else if str_eq(l, "safari") {
            Ok(Category::Safari)
        } else if str_eq(l, "system") {
            Ok(Category::System)
        } else if str_eq(l, "other") {
            Ok(Category::Other)
        } else {
            let mut msg = string_of("unknown category: ");
            push_str(&mut msg, s);
            Err(msg)
        }
    }
}

impl std::str::FromStr for Category {
    type Err = String;

    fn from_str(s: &str) -> (r: Result<Self, Self::Err>)
        ensures
            match (r, parsed_category(s@)) {
                (Ok(c), Ok(d)) => c == d,
                (Err(e), Err(m)) => e@ == m,
                _ => false,
            },
    {
        Category::parse_name(s)
    }
}

/// The prefix rules as executable data.
fn rules() -> (r: Vec<(&'static str, Category)>)
    ensures
        r@.len() == prefix_rules().len(),
        forall|i: int| 0 <= i < r@.len() ==> (#[trigger] r@[i]).0@ == prefix_rules()[i].0 && r@[i].1
            == prefix_rules()[i].1,
{
    let r = vec![
        ("osanalytics.appUsage", Category::Apps),
        ("appkit.app_config", Category::Apps),
        ("locationd.", Category::Location),
        ("CoreRoutine.", Category::Location),
        ("MicroLocation.", Category::Location),
        ("wifi.", Category::Network),
        ("Bluetooth.", Category::Network),
        ("CoreML.", Category::Ai),
        ("LLMInferenceEvent", Category::Ai),
        ("intelligenceplatform.", Category::Ai),
        ("GenerativeModels.", Category::Ai),
        ("Espresso.", Category::Ai),
        ("proactive.PersonalizationPortrait.", Category::Behavioral),
        ("parsecd.", Category::Behavioral),
        ("photos.", Category::Media),
        ("mediaanalysisd.", Category::Media),
        ("VisionKit.", Category::Media),
        ("camera.", Category::Media),
        ("Messages.", Category::Comms),
        ("Siri.", Category::Comms),
        ("Keyboard.", Category::Comms),
        ("syspolicy.", Category::Security),
        ("security.", Category::Security),
        ("Safari.", Category::Safari),
        ("SafariShared.", Category::Safari),
        ("power.", Category::System),
        ("memorytools.", Category::System),
        ("dasd.", Category::System),
        ("cachedelete.", Category::System),
    ];
    r
}

/// Classify an event name into a telemetry category based on prefix matching.
///
/// A leading `com.apple.` is stripped before matching; if no prefix matches,
/// the result is [`Category::Other`].
pub fn categorize(event_name: &str) -> (c: Category)
    ensures
        c == category_of(event_name@),
{
    let chars = crate::text::chars_of(event_name);
    let stripped_owned: String;
    if starts_with(event_name, "com.apple.") {
        proof {
            reveal_strlit("com.apple.");
        }
        stripped_owned = crate::text::string_from_chars(&chars, 10, chars.len());
    } else {
        stripped_owned = string_of(event_name);
    }
    let stripped = stripped_owned.as_str();
    assert(stripped@ == strip_apple(event_name@));
    let table = rules();
    let mut i: usize = 0;
    assert(prefix_rules().skip(0) =~= prefix_rules());
    while i < table.len()
        invariant
            table@.len() == prefix_rules().len(),
            forall|k: int| 0 <= k < table@.len() ==> (#[trigger] table@[k]).0@ == prefix_rules()[k].0
                && table@[k].1 == prefix_rules()[k].1,
            i <= table.len(),
            stripped@ == strip_apple(event_name@),
            first_rule(prefix_rules(), stripped@) == first_rule(
                prefix_rules().skip(i as int),
                stripped@,
            ),
        decreases table.len() - i,
    {
        let (p, cat) = table[i];
        assert(table@[i as int].0@ == prefix_rules()[i as int].0);
        assert(prefix_rules().skip(i as int).len() > 0);
        assert(prefix_rules().skip(i as int)[0] == prefix_rules()[i as int]);
        assert(prefix_rules().skip(i as int).drop_first() =~= prefix_rules().skip(i + 1));
        assert(cat == prefix_rules()[i as int].1);
        assert(p@ == prefix_rules()[i as int].0);
        if starts_with(stripped, p) {
            assert(first_rule(prefix_rules().skip(i as int), stripped@) == cat);
            return cat;
        }
        i = i + 1;
    }
    Category::Other
}

/// Stripping the Apple prefix: a name and the same name under `com.apple.`
/// fall in the same category, unless the name itself starts with `com.apple.`.
pub proof fn lemma_apple_prefix_is_ignored(name: Seq<char>)
    requires
        !is_prefix(apple_prefix(), name),
    ensures
        category_of(apple_prefix() + name) == category_of(name),
{
    let full = apple_prefix() + name;
    assert(full.subrange(0, apple_prefix().len() as int) =~= apple_prefix());
    assert(full.subrange(apple_prefix().len() as int, full.len() as int) =~= name);
}

/// Every category's display name parses back to that category.
pub proof fn lemma_name_parses_back(c: Category)
    ensures
        parsed_category(category_name(c)) == Ok::<Category, Seq<char>>(c),
{
    reveal_strlit("Apps");
    reveal_strlit("apps");
    reveal_strlit("Location");
    reveal_strlit("location");
    reveal_strlit("Network");
    reveal_strlit("network");
    reveal_strlit("AI");
    reveal_strlit("ai");
    reveal_strlit("Behavioral");
    reveal_strlit("behavioral");
    reveal_strlit("Media");
    reveal_strlit("media");
    reveal_strlit("Comms");
    reveal_strlit("comms");
    reveal_strlit("Security");
    reveal_strlit("security");
    reveal_strlit("Safari");
    reveal_strlit("safari");
    reveal_strlit("System");
    reveal_strlit("system");
    reveal_strlit("Other");
    reveal_strlit("other");
    assert("apps"@[0] == 'a' && "apps"@[1] == 'p');
    assert("location"@[0] == 'l' && "location"@[1] == 'o');
    assert("network"@[0] == 'n' && "network"@[1] == 'e');
    assert("ai"@[0] == 'a' && "ai"@[1] == 'i');
    assert("behavioral"@[0] == 'b' && "behavioral"@[1] == 'e');
    assert("media"@[0] == 'm' && "media"@[1] == 'e');
    assert("comms"@[0] == 'c' && "comms"@[1] == 'o');
    assert("security"@[0] == 's' && "security"@[1] == 'e');
    assert("safari"@[0] == 's' && "safari"@[1] == 'a');
    assert("system"@[0] == 's' && "system"@[1] == 'y');
    assert("other"@[0] == 'o' && "other"@[1] == 't');
    match c {
        Category::Apps => {
            assert(ascii_lower("Apps"@) =~= "apps"@);
            assert(parsed_category("Apps"@) == Ok::<Category, Seq<char>>(Category::Apps));
        },
        Category::Location => {
            assert(ascii_lower("Location"@) =~= "location"@);
            assert(parsed_category("Location"@) == Ok::<Category, Seq<char>>(Category::Location));
        },
        Category::Network => {
            assert(ascii_lower("Network"@) =~= "network"@);
            assert(parsed_category("Network"@) == Ok::<Category, Seq<char>>(Category::Network));
        },
        Category::Ai => {
            assert(ascii_lower("AI"@) =~= "ai"@);
            assert(parsed_category("AI"@) == Ok::<Category, Seq<char>>(Category::Ai));
        },
        Category::Behavioral => {
            assert(ascii_lower("Behavioral"@) =~= "behavioral"@);
            assert(parsed_category("Behavioral"@) == Ok::<Category, Seq<char>>(Category::Behavioral));
        },
        Category::Media => {
            assert(ascii_lower("Media"@) =~= "media"@);
            assert(parsed_category("Media"@) == Ok::<Category, Seq<char>>(Category::Media));
        },
        Category::Comms => {
            assert(ascii_lower("Comms"@) =~= "comms"@);
            assert(parsed_category("Comms"@) == Ok::<Category, Seq<char>>(Category::Comms));
        },
        Category::Security => {
            assert(ascii_lower("Security"@) =~= "security"@);
            assert(parsed_category("Security"@) == Ok::<Category, Seq<char>>(Category::Security));
        },
        Category::Safari => {
            assert(ascii_lower("Safari"@) =~= "safari"@);
            assert(parsed_category("Safari"@) == Ok::<Category, Seq<char>>(Category::Safari));
        },
        Category::System => {
            assert(ascii_lower("System"@) =~= "system"@);
            assert(parsed_category("System"@) == Ok::<Category, Seq<char>>(Category::System));
        },
        Category::Other => {
            assert(ascii_lower("Other"@) =~= "other"@);
            assert(parsed_category("Other"@) == Ok::<Category, Seq<char>>(Category::Other));
        },
    }
}

/// Parsing ignores ASCII case: a name and its lowercase parse alike when
/// the name is accepted.
pub proof fn lemma_parse_ignores_case(s: Seq<char>)
    requires
        category_for_lower_name(ascii_lower(s)) is Some,
    ensures
        parsed_category(s) == parsed_category(ascii_lower(s)),
{
    assert(ascii_lower(ascii_lower(s)) =~= ascii_lower(s));
}

/// Parse a category string from command-line arguments.
pub fn parse_category(s: &str) -> (r: Result<Category, String>)
    ensures
        match (r, parsed_category(s@)) {
            (Ok(c), Ok(d)) => c == d,
            (Err(e), Err(m)) => e@ == m,
            _ => false,
        },
{
    Category::parse_name(s)
}

} // verus!
