//! Laws of categorization: the category of each documented event-name prefix.
use crate::category::{apple_prefix, category_of, first_rule, lemma_apple_prefix_is_ignored, prefix_rules, Category};
use crate::text::is_prefix;
use vstd::prelude::*;

verus! {

/// `q` is not a prefix of `s` when they differ at a position both have.
proof fn lemma_not_prefix_at(q: Seq<char>, s: Seq<char>, i: int)
    requires
        0 <= i < q.len(),
        i < s.len(),
        q[i] != s[i],
    ensures
        !is_prefix(q, s),
{
    if is_prefix(q, s) {
        assert(s.subrange(0, q.len() as int)[i] == s[i]);
    }
}

/// The rules, entry by entry.
proof fn lemma_rules_table()
    ensures
        prefix_rules().len() == 29,
        prefix_rules()[0] == ("osanalytics.appUsage"@, Category::Apps),
        prefix_rules()[1] == ("appkit.app_config"@, Category::Apps),
        prefix_rules()[2] == ("locationd."@, Category::Location),
        prefix_rules()[3] == ("CoreRoutine."@, Category::Location),
        prefix_rules()[4] == ("MicroLocation."@, Category::Location),
        prefix_rules()[5] == ("wifi."@, Category::Network),
        prefix_rules()[6] == ("Bluetooth."@, Category::Network),
        prefix_rules()[7] == ("CoreML."@, Category::Ai),
        prefix_rules()[8] == ("LLMInferenceEvent"@, Category::Ai),
        prefix_rules()[9] == ("intelligenceplatform."@, Category::Ai),
        prefix_rules()[10] == ("GenerativeModels."@, Category::Ai),
        prefix_rules()[11] == ("Espresso."@, Category::Ai),
        prefix_rules()[12] == ("proactive.PersonalizationPortrait."@, Category::Behavioral),
        prefix_rules()[13] == ("parsecd."@, Category::Behavioral),
        prefix_rules()[14] == ("photos."@, Category::Media),
        prefix_rules()[15] == ("mediaanalysisd."@, Category::Media),
        prefix_rules()[16] == ("VisionKit."@, Category::Media),
        prefix_rules()[17] == ("camera."@, Category::Media),
        prefix_rules()[18] == ("Messages."@, Category::Comms),
        prefix_rules()[19] == ("Siri."@, Category::Comms),
        prefix_rules()[20] == ("Keyboard."@, Category::Comms),
        prefix_rules()[21] == ("syspolicy."@, Category::Security),
        prefix_rules()[22] == ("security."@, Category::Security),
        prefix_rules()[23] == ("Safari."@, Category::Safari),
        prefix_rules()[24] == ("SafariShared."@, Category::Safari),
        prefix_rules()[25] == ("power."@, Category::System),
        prefix_rules()[26] == ("memorytools."@, Category::System),
        prefix_rules()[27] == ("dasd."@, Category::System),
        prefix_rules()[28] == ("cachedelete."@, Category::System),
{
}

/// Skipping a rule whose prefix differs from `s` at position `i`.
proof fn lemma_rule_skip(j: int, s: Seq<char>, i: int)
    requires
        0 <= j < prefix_rules().len(),
        0 <= i < prefix_rules()[j].0.len(),
        i < s.len(),
        prefix_rules()[j].0[i] != s[i],
    ensures
        first_rule(prefix_rules().skip(j), s) == first_rule(prefix_rules().skip(j + 1), s),
{
    lemma_not_prefix_at(prefix_rules()[j].0, s, i);
    assert(prefix_rules().skip(j)[0] == prefix_rules()[j]);
    assert(prefix_rules().skip(j).drop_first() =~= prefix_rules().skip(j + 1));
}

/// Names under `osanalytics.appUsage` are Apps.
proof fn lemma_rule_0(rest: Seq<char>)
    ensures
        category_of("osanalytics.appUsage"@ + rest) == Category::Apps,
        category_of("com.apple."@ + "osanalytics.appUsage"@ + rest) == Category::Apps,
{
    lemma_rules_table();
    reveal_strlit("osanalytics.appUsage");
    reveal_strlit("com.apple.");
    let s = "osanalytics.appUsage"@ + rest;
    assert(prefix_rules().skip(0) =~= prefix_rules());
    assert(prefix_rules().skip(0)[0] == prefix_rules()[0]);
    assert(s.subrange(0, "osanalytics.appUsage"@.len() as int) =~= "osanalytics.appUsage"@);
    lemma_not_prefix_at(apple_prefix(), s, 0);
    lemma_apple_prefix_is_ignored(s);
    assert("com.apple."@ + "osanalytics.appUsage"@ + rest =~= apple_prefix() + s);
}

/// Names under `appkit.app_config` are Apps.
proof fn lemma_rule_1(rest: Seq<char>)
    ensures
        category_of("appkit.app_config"@ + rest) == Category::Apps,
        category_of("com.apple."@ + "appkit.app_config"@ + rest) == Category::Apps,
{
    lemma_rules_table();
    reveal_strlit("appkit.app_config");
    reveal_strlit("com.apple.");
    reveal_strlit("osanalytics.appUsage");
    let s = "appkit.app_config"@ + rest;
    assert(prefix_rules().skip(0) =~= prefix_rules());
    lemma_rule_skip(0, s, 0);
    assert(prefix_rules().skip(1)[0] == prefix_rules()[1]);
    assert(s.subrange(0, "appkit.app_config"@.len() as int) =~= "appkit.app_config"@);
    lemma_not_prefix_at(apple_prefix(), s, 0);
    lemma_apple_prefix_is_ignored(s);
    assert("com.apple."@ + "appkit.app_config"@ + rest =~= apple_prefix() + s);
}

/// Names under `locationd.` are Location.
proof fn lemma_rule_2(rest: Seq<char>)
    ensures
        category_of("locationd."@ + rest) == Category::Location,
        category_of("com.apple."@ + "locationd."@ + rest) == Category::Location,
{
    lemma_rules_table();
    reveal_strlit("locationd.");
    reveal_strlit("com.apple.");
    reveal_strlit("osanalytics.appUsage");
    reveal_strlit("appkit.app_config");
    let s = "locationd."@ + rest;
    assert(prefix_rules().skip(0) =~= prefix_rules());
    lemma_rule_skip(0, s, 0);
    lemma_rule_skip(1, s, 0);
    assert(prefix_rules().skip(2)[0] == prefix_rules()[2]);
    assert(s.subrange(0, "locationd."@.len() as int) =~= "locationd."@);
    lemma_not_prefix_at(apple_prefix(), s, 0);
    lemma_apple_prefix_is_ignored(s);
    assert("com.apple."@ + "locationd."@ + rest =~= apple_prefix() + s);
}

/// Names under `CoreRoutine.` are Location.
proof fn lemma_rule_3(rest: Seq<char>)
    ensures
        category_of("CoreRoutine."@ + rest) == Category::Location,
        category_of("com.apple."@ + "CoreRoutine."@ + rest) == Category::Location,
{
    lemma_rules_table();
    reveal_strlit("CoreRoutine.");
    reveal_strlit("com.apple.");
    reveal_strlit("osanalytics.appUsage");
    reveal_strlit("appkit.app_config");
    reveal_strlit("locationd.");
    let s = "CoreRoutine."@ + rest;
    assert(prefix_rules().skip(0) =~= prefix_rules());
    lemma_rule_skip(0, s, 0);
    lemma_rule_skip(1, s, 0);
    lemma_rule_skip(2, s, 0);
    assert(prefix_rules().skip(3)[0] == prefix_rules()[3]);
    assert(s.subrange(0, "CoreRoutine."@.len() as int) =~= "CoreRoutine."@);
    lemma_not_prefix_at(apple_prefix(), s, 0);
    lemma_apple_prefix_is_ignored(s);
    assert("com.apple."@ + "CoreRoutine."@ + rest =~= apple_prefix() + s);
}

/// Names under `MicroLocation.` are Location.
proof fn lemma_rule_4(rest: Seq<char>)
    ensures
        category_of("MicroLocation."@ + rest) == Category::Location,
        category_of("com.apple."@ + "MicroLocation."@ + rest) == Category::Location,
{
    lemma_rules_table();
    reveal_strlit("MicroLocation.");
    reveal_strlit("com.apple.");
    reveal_strlit("osanalytics.appUsage");
    reveal_strlit("appkit.app_config");
    reveal_strlit("locationd.");
    reveal_strlit("CoreRoutine.");
    let s = "MicroLocation."@ + rest;
    assert(prefix_rules().skip(0) =~= prefix_rules());
    lemma_rule_skip(0, s, 0);
    lemma_rule_skip(1, s, 0);
    lemma_rule_skip(2, s, 0);
    lemma_rule_skip(3, s, 0);
    assert(prefix_rules().skip(4)[0] == prefix_rules()[4]);
    assert(s.subrange(0, "MicroLocation."@.len() as int) =~= "MicroLocation."@);
    lemma_not_prefix_at(apple_prefix(), s, 0);
    lemma_apple_prefix_is_ignored(s);
    assert("com.apple."@ + "MicroLocation."@ + rest =~= apple_prefix() + s);
}

/// Names under `wifi.` are Network.
proof fn lemma_rule_5(rest: Seq<char>)
    ensures
        category_of("wifi."@ + rest) == Category::Network,
        category_of("com.apple."@ + "wifi."@ + rest) == Category::Network,
{
    lemma_rules_table();
    reveal_strlit("wifi.");
    reveal_strlit("com.apple.");
    reveal_strlit("osanalytics.appUsage");
    reveal_strlit("appkit.app_config");
    reveal_strlit("locationd.");
    reveal_strlit("CoreRoutine.");
    reveal_strlit("MicroLocation.");
    let s = "wifi."@ + rest;
    assert(prefix_rules().skip(0) =~= prefix_rules());
    lemma_rule_skip(0, s, 0);
    lemma_rule_skip(1, s, 0);
    lemma_rule_skip(2, s, 0);
    lemma_rule_skip(3, s, 0);
    lemma_rule_skip(4, s, 0);
    assert(prefix_rules().skip(5)[0] == prefix_rules()[5]);
    assert(s.subrange(0, "wifi."@.len() as int) =~= "wifi."@);
    lemma_not_prefix_at(apple_prefix(), s, 0);
    lemma_apple_prefix_is_ignored(s);
    assert("com.apple."@ + "wifi."@ + rest =~= apple_prefix() + s);
}

/// Names under `Bluetooth.` are Network.
proof fn lemma_rule_6(rest: Seq<char>)
    ensures
        category_of("Bluetooth."@ + rest) == Category::Network,
        category_of("com.apple."@ + "Bluetooth."@ + rest) == Category::Network,
{
    lemma_rules_table();
    reveal_strlit("Bluetooth.");
    reveal_strlit("com.apple.");
    reveal_strlit("osanalytics.appUsage");
    reveal_strlit("appkit.app_config");
    reveal_strlit("locationd.");
    reveal_strlit("CoreRoutine.");
    reveal_strlit("MicroLocation.");
    reveal_strlit("wifi.");
    let s = "Bluetooth."@ + rest;
    assert(prefix_rules().skip(0) =~= prefix_rules());
    lemma_rule_skip(0, s, 0);
    lemma_rule_skip(1, s, 0);
    lemma_rule_skip(2, s, 0);
    lemma_rule_skip(3, s, 0);
    lemma_rule_skip(4, s, 0);
    lemma_rule_skip(5, s, 0);
    assert(prefix_rules().skip(6)[0] == prefix_rules()[6]);
    assert(s.subrange(0, "Bluetooth."@.len() as int) =~= "Bluetooth."@);
    lemma_not_prefix_at(apple_prefix(), s, 0);
    lemma_apple_prefix_is_ignored(s);
    assert("com.apple."@ + "Bluetooth."@ + rest =~= apple_prefix() + s);
}

/// Names under `CoreML.` are Ai.
proof fn lemma_rule_7(rest: Seq<char>)
    ensures
        category_of("CoreML."@ + rest) == Category::Ai,
        category_of("com.apple."@ + "CoreML."@ + rest) == Category::Ai,
{
    lemma_rules_table();
    reveal_strlit("CoreML.");
    reveal_strlit("com.apple.");
    reveal_strlit("osanalytics.appUsage");
    reveal_strlit("appkit.app_config");
    reveal_strlit("locationd.");
    reveal_strlit("CoreRoutine.");
    reveal_strlit("MicroLocation.");
    reveal_strlit("wifi.");
    reveal_strlit("Bluetooth.");
    let s = "CoreML."@ + rest;
    assert(prefix_rules().skip(0) =~= prefix_rules());
    lemma_rule_skip(0, s, 0);
    lemma_rule_skip(1, s, 0);
    lemma_rule_skip(2, s, 0);
    lemma_rule_skip(3, s, 4);
    lemma_rule_skip(4, s, 0);
    lemma_rule_skip(5, s, 0);
    lemma_rule_skip(6, s, 0);
    assert(prefix_rules().skip(7)[0] == prefix_rules()[7]);
    assert(s.subrange(0, "CoreML."@.len() as int) =~= "CoreML."@);
    lemma_not_prefix_at(apple_prefix(), s, 0);
    lemma_apple_prefix_is_ignored(s);
    assert("com.apple."@ + "CoreML."@ + rest =~= apple_prefix() + s);
}

/// Names under `LLMInferenceEvent` are Ai.
proof fn lemma_rule_8(rest: Seq<char>)
    ensures
        category_of("LLMInferenceEvent"@ + rest) == Category::Ai,
        category_of("com.apple."@ + "LLMInferenceEvent"@ + rest) == Category::Ai,
{
    lemma_rules_table();
    reveal_strlit("LLMInferenceEvent");
    reveal_strlit("com.apple.");
    reveal_strlit("osanalytics.appUsage");
    reveal_strlit("appkit.app_config");
    reveal_strlit("locationd.");
    reveal_strlit("CoreRoutine.");
    reveal_strlit("MicroLocation.");
    reveal_strlit("wifi.");
    reveal_strlit("Bluetooth.");
    reveal_strlit("CoreML.");
    let s = "LLMInferenceEvent"@ + rest;
    assert(prefix_rules().skip(0) =~= prefix_rules());
    lemma_rule_skip(0, s, 0);
    lemma_rule_skip(1, s, 0);
    lemma_rule_skip(2, s, 0);
    lemma_rule_skip(3, s, 0);
    lemma_rule_skip(4, s, 0);
    lemma_rule_skip(5, s, 0);
    lemma_rule_skip(6, s, 0);
    lemma_rule_skip(7, s, 0);
    assert(prefix_rules().skip(8)[0] == prefix_rules()[8]);
    assert(s.subrange(0, "LLMInferenceEvent"@.len() as int) =~= "LLMInferenceEvent"@);
    lemma_not_prefix_at(apple_prefix(), s, 0);
    lemma_apple_prefix_is_ignored(s);
    assert("com.apple."@ + "LLMInferenceEvent"@ + rest =~= apple_prefix() + s);
}

/// Names under `intelligenceplatform.` are Ai.
proof fn lemma_rule_9(rest: Seq<char>)
    ensures
        category_of("intelligenceplatform."@ + rest) == Category::Ai,
        category_of("com.apple."@ + "intelligenceplatform."@ + rest) == Category::Ai,
{
    lemma_rules_table();
    reveal_strlit("intelligenceplatform.");
    reveal_strlit("com.apple.");
    reveal_strlit("osanalytics.appUsage");
    reveal_strlit("appkit.app_config");
    reveal_strlit("locationd.");
    reveal_strlit("CoreRoutine.");
    reveal_strlit("MicroLocation.");
    reveal_strlit("wifi.");
    reveal_strlit("Bluetooth.");
    reveal_strlit("CoreML.");
    reveal_strlit("LLMInferenceEvent");
    let s = "intelligenceplatform."@ + rest;
    assert(prefix_rules().skip(0) =~= prefix_rules());
    lemma_rule_skip(0, s, 0);
    lemma_rule_skip(1, s, 0);
    lemma_rule_skip(2, s, 0);
    lemma_rule_skip(3, s, 0);
    lemma_rule_skip(4, s, 0);
    lemma_rule_skip(5, s, 0);
    lemma_rule_skip(6, s, 0);
    lemma_rule_skip(7, s, 0);
    lemma_rule_skip(8, s, 0);
    assert(prefix_rules().skip(9)[0] == prefix_rules()[9]);
    assert(s.subrange(0, "intelligenceplatform."@.len() as int) =~= "intelligenceplatform."@);
    lemma_not_prefix_at(apple_prefix(), s, 0);
    lemma_apple_prefix_is_ignored(s);
    assert("com.apple."@ + "intelligenceplatform."@ + rest =~= apple_prefix() + s);
}

/// Names under `GenerativeModels.` are Ai.
proof fn lemma_rule_10(rest: Seq<char>)
    ensures
        category_of("GenerativeModels."@ + rest) == Category::Ai,
        category_of("com.apple."@ + "GenerativeModels."@ + rest) == Category::Ai,
{
    lemma_rules_table();
    reveal_strlit("GenerativeModels.");
    reveal_strlit("com.apple.");
    reveal_strlit("osanalytics.appUsage");
    reveal_strlit("appkit.app_config");
    reveal_strlit("locationd.");
    reveal_strlit("CoreRoutine.");
    reveal_strlit("MicroLocation.");
    reveal_strlit("wifi.");
    reveal_strlit("Bluetooth.");
    reveal_strlit("CoreML.");
    reveal_strlit("LLMInferenceEvent");
    reveal_strlit("intelligenceplatform.");
    let s = "GenerativeModels."@ + rest;
    assert(prefix_rules().skip(0) =~= prefix_rules());
    lemma_rule_skip(0, s, 0);
    lemma_rule_skip(1, s, 0);
    lemma_rule_skip(2, s, 0);
    lemma_rule_skip(3, s, 0);
    lemma_rule_skip(4, s, 0);
    lemma_rule_skip(5, s, 0);
    lemma_rule_skip(6, s, 0);
    lemma_rule_skip(7, s, 0);
    lemma_rule_skip(8, s, 0);
    lemma_rule_skip(9, s, 0);
    assert(prefix_rules().skip(10)[0] == prefix_rules()[10]);
    assert(s.subrange(0, "GenerativeModels."@.len() as int) =~= "GenerativeModels."@);
    lemma_not_prefix_at(apple_prefix(), s, 0);
    lemma_apple_prefix_is_ignored(s);
    assert("com.apple."@ + "GenerativeModels."@ + rest =~= apple_prefix() + s);
}

/// Names under `Espresso.` are Ai.
proof fn lemma_rule_11(rest: Seq<char>)
    ensures
        category_of("Espresso."@ + rest) == Category::Ai,
        category_of("com.apple."@ + "Espresso."@ + rest) == Category::Ai,
{
    lemma_rules_table();
    reveal_strlit("Espresso.");
    reveal_strlit("com.apple.");
    reveal_strlit("osanalytics.appUsage");
    reveal_strlit("appkit.app_config");
    reveal_strlit("locationd.");
    reveal_strlit("CoreRoutine.");
    reveal_strlit("MicroLocation.");
    reveal_strlit("wifi.");
    reveal_strlit("Bluetooth.");
    reveal_strlit("CoreML.");
    reveal_strlit("LLMInferenceEvent");
    reveal_strlit("intelligenceplatform.");
    reveal_strlit("GenerativeModels.");
    let s = "Espresso."@ + rest;
    assert(prefix_rules().skip(0) =~= prefix_rules());
    lemma_rule_skip(0, s, 0);
    lemma_rule_skip(1, s, 0);
    lemma_rule_skip(2, s, 0);
    lemma_rule_skip(3, s, 0);
    lemma_rule_skip(4, s, 0);
    lemma_rule_skip(5, s, 0);
    lemma_rule_skip(6, s, 0);
    lemma_rule_skip(7, s, 0);
    lemma_rule_skip(8, s, 0);
    lemma_rule_skip(9, s, 0);
    lemma_rule_skip(10, s, 0);
    assert(prefix_rules().skip(11)[0] == prefix_rules()[11]);
    assert(s.subrange(0, "Espresso."@.len() as int) =~= "Espresso."@);
    lemma_not_prefix_at(apple_prefix(), s, 0);
    lemma_apple_prefix_is_ignored(s);
    assert("com.apple."@ + "Espresso."@ + rest =~= apple_prefix() + s);
}

/// Names under `proactive.PersonalizationPortrait.` are Behavioral.
proof fn lemma_rule_12(rest: Seq<char>)
    ensures
        category_of("proactive.PersonalizationPortrait."@ + rest) == Category::Behavioral,
        category_of("com.apple."@ + "proactive.PersonalizationPortrait."@ + rest) == Category::Behavioral,
{
    lemma_rules_table();
    reveal_strlit("proactive.PersonalizationPortrait.");
    reveal_strlit("com.apple.");
    reveal_strlit("osanalytics.appUsage");
    reveal_strlit("appkit.app_config");
    reveal_strlit("locationd.");
    reveal_strlit("CoreRoutine.");
    reveal_strlit("MicroLocation.");
    reveal_strlit("wifi.");
    reveal_strlit("Bluetooth.");
    reveal_strlit("CoreML.");
    reveal_strlit("LLMInferenceEvent");
    reveal_strlit("intelligenceplatform.");
    reveal_strlit("GenerativeModels.");
    reveal_strlit("Espresso.");
    let s = "proactive.PersonalizationPortrait."@ + rest;
    assert(prefix_rules().skip(0) =~= prefix_rules());
    lemma_rule_skip(0, s, 0);
    lemma_rule_skip(1, s, 0);
    lemma_rule_skip(2, s, 0);
    lemma_rule_skip(3, s, 0);
    lemma_rule_skip(4, s, 0);
    lemma_rule_skip(5, s, 0);
    lemma_rule_skip(6, s, 0);
    lemma_rule_skip(7, s, 0);
    lemma_rule_skip(8, s, 0);
    lemma_rule_skip(9, s, 0);
    lemma_rule_skip(10, s, 0);
    lemma_rule_skip(11, s, 0);
    assert(prefix_rules().skip(12)[0] == prefix_rules()[12]);
    assert(s.subrange(0, "proactive.PersonalizationPortrait."@.len() as int) =~= "proactive.PersonalizationPortrait."@);
    lemma_not_prefix_at(apple_prefix(), s, 0);
    lemma_apple_prefix_is_ignored(s);
    assert("com.apple."@ + "proactive.PersonalizationPortrait."@ + rest =~= apple_prefix() + s);
}

/// Names under `parsecd.` are Behavioral.
proof fn lemma_rule_13(rest: Seq<char>)
    ensures
        category_of("parsecd."@ + rest) == Category::Behavioral,
        category_of("com.apple."@ + "parsecd."@ + rest) == Category::Behavioral,
{
    lemma_rules_table();
    reveal_strlit("parsecd.");
    reveal_strlit("com.apple.");
    reveal_strlit("osanalytics.appUsage");
    reveal_strlit("appkit.app_config");
    reveal_strlit("locationd.");
    reveal_strlit("CoreRoutine.");
    reveal_strlit("MicroLocation.");
    reveal_strlit("wifi.");
    reveal_strlit("Bluetooth.");
    reveal_strlit("CoreML.");
    reveal_strlit("LLMInferenceEvent");
    reveal_strlit("intelligenceplatform.");
    reveal_strlit("GenerativeModels.");
    reveal_strlit("Espresso.");
    reveal_strlit("proactive.PersonalizationPortrait.");
    let s = "parsecd."@ + rest;
    assert(prefix_rules().skip(0) =~= prefix_rules());
    lemma_rule_skip(0, s, 0);
    lemma_rule_skip(1, s, 0);
    lemma_rule_skip(2, s, 0);
    lemma_rule_skip(3, s, 0);
    lemma_rule_skip(4, s, 0);
    lemma_rule_skip(5, s, 0);
    lemma_rule_skip(6, s, 0);
    lemma_rule_skip(7, s, 0);
    lemma_rule_skip(8, s, 0);
    lemma_rule_skip(9, s, 0);
    lemma_rule_skip(10, s, 0);
    lemma_rule_skip(11, s, 0);
    lemma_rule_skip(12, s, 1);
    assert(prefix_rules().skip(13)[0] == prefix_rules()[13]);
    assert(s.subrange(0, "parsecd."@.len() as int) =~= "parsecd."@);
    lemma_not_prefix_at(apple_prefix(), s, 0);
    lemma_apple_prefix_is_ignored(s);
    assert("com.apple."@ + "parsecd."@ + rest =~= apple_prefix() + s);
}

/// Names under `photos.` are Media.
proof fn lemma_rule_14(rest: Seq<char>)
    ensures
        category_of("photos."@ + rest) == Category::Media,
        category_of("com.apple."@ + "photos."@ + rest) == Category::Media,
{
    lemma_rules_table();
    reveal_strlit("photos.");
    reveal_strlit("com.apple.");
    reveal_strlit("osanalytics.appUsage");
    reveal_strlit("appkit.app_config");
    reveal_strlit("locationd.");
    reveal_strlit("CoreRoutine.");
    reveal_strlit("MicroLocation.");
    reveal_strlit("wifi.");
    reveal_strlit("Bluetooth.");
    reveal_strlit("CoreML.");
    reveal_strlit("LLMInferenceEvent");
    reveal_strlit("intelligenceplatform.");
    reveal_strlit("GenerativeModels.");
    reveal_strlit("Espresso.");
    reveal_strlit("proactive.PersonalizationPortrait.");
    reveal_strlit("parsecd.");
    let s = "photos."@ + rest;
    assert(prefix_rules().skip(0) =~= prefix_rules());
    lemma_rule_skip(0, s, 0);
    lemma_rule_skip(1, s, 0);
    lemma_rule_skip(2, s, 0);
    lemma_rule_skip(3, s, 0);
    lemma_rule_skip(4, s, 0);
    lemma_rule_skip(5, s, 0);
    lemma_rule_skip(6, s, 0);
    lemma_rule_skip(7, s, 0);
    lemma_rule_skip(8, s, 0);
    lemma_rule_skip(9, s, 0);
    lemma_rule_skip(10, s, 0);
    lemma_rule_skip(11, s, 0);
    lemma_rule_skip(12, s, 1);
    lemma_rule_skip(13, s, 1);
    assert(prefix_rules().skip(14)[0] == prefix_rules()[14]);
    assert(s.subrange(0, "photos."@.len() as int) =~= "photos."@);
    lemma_not_prefix_at(apple_prefix(), s, 0);
    lemma_apple_prefix_is_ignored(s);
    assert("com.apple."@ + "photos."@ + rest =~= apple_prefix() + s);
}

/// Names under `mediaanalysisd.` are Media.
proof fn lemma_rule_15(rest: Seq<char>)
    ensures
        category_of("mediaanalysisd."@ + rest) == Category::Media,
        category_of("com.apple."@ + "mediaanalysisd."@ + rest) == Category::Media,
{
    lemma_rules_table();
    reveal_strlit("mediaanalysisd.");
    reveal_strlit("com.apple.");
    reveal_strlit("osanalytics.appUsage");
    reveal_strlit("appkit.app_config");
    reveal_strlit("locationd.");
    reveal_strlit("CoreRoutine.");
    reveal_strlit("MicroLocation.");
    reveal_strlit("wifi.");
    reveal_strlit("Bluetooth.");
    reveal_strlit("CoreML.");
    reveal_strlit("LLMInferenceEvent");
    reveal_strlit("intelligenceplatform.");
    reveal_strlit("GenerativeModels.");
    reveal_strlit("Espresso.");
    reveal_strlit("proactive.PersonalizationPortrait.");
    reveal_strlit("parsecd.");
    reveal_strlit("photos.");
    let s = "mediaanalysisd."@ + rest;
    assert(prefix_rules().skip(0) =~= prefix_rules());
    lemma_rule_skip(0, s, 0);
    lemma_rule_skip(1, s, 0);
    lemma_rule_skip(2, s, 0);
    lemma_rule_skip(3, s, 0);
    lemma_rule_skip(4, s, 0);
    lemma_rule_skip(5, s, 0);
    lemma_rule_skip(6, s, 0);
    lemma_rule_skip(7, s, 0);
    lemma_rule_skip(8, s, 0);
    lemma_rule_skip(9, s, 0);
    lemma_rule_skip(10, s, 0);
    lemma_rule_skip(11, s, 0);
    lemma_rule_skip(12, s, 0);
    lemma_rule_skip(13, s, 0);
    lemma_rule_skip(14, s, 0);
    assert(prefix_rules().skip(15)[0] == prefix_rules()[15]);
    assert(s.subrange(0, "mediaanalysisd."@.len() as int) =~= "mediaanalysisd."@);
    lemma_not_prefix_at(apple_prefix(), s, 0);
    lemma_apple_prefix_is_ignored(s);
    assert("com.apple."@ + "mediaanalysisd."@ + rest =~= apple_prefix() + s);
}

/// Names under `VisionKit.` are Media.
proof fn lemma_rule_16(rest: Seq<char>)
    ensures
        category_of("VisionKit."@ + rest) == Category::Media,
        category_of("com.apple."@ + "VisionKit."@ + rest) == Category::Media,
{
    lemma_rules_table();
    reveal_strlit("VisionKit.");
    reveal_strlit("com.apple.");
    reveal_strlit("osanalytics.appUsage");
    reveal_strlit("appkit.app_config");
    reveal_strlit("locationd.");
    reveal_strlit("CoreRoutine.");
    reveal_strlit("MicroLocation.");
    reveal_strlit("wifi.");
    reveal_strlit("Bluetooth.");
    reveal_strlit("CoreML.");
    reveal_strlit("LLMInferenceEvent");
    reveal_strlit("intelligenceplatform.");
    reveal_strlit("GenerativeModels.");
    reveal_strlit("Espresso.");
    reveal_strlit("proactive.PersonalizationPortrait.");
    reveal_strlit("parsecd.");
    reveal_strlit("photos.");
    reveal_strlit("mediaanalysisd.");
    let s = "VisionKit."@ + rest;
    assert(prefix_rules().skip(0) =~= prefix_rules());
    lemma_rule_skip(0, s, 0);
    lemma_rule_skip(1, s, 0);
    lemma_rule_skip(2, s, 0);
    lemma_rule_skip(3, s, 0);
    lemma_rule_skip(4, s, 0);
    lemma_rule_skip(5, s, 0);
    lemma_rule_skip(6, s, 0);
    lemma_rule_skip(7, s, 0);
    lemma_rule_skip(8, s, 0);
    lemma_rule_skip(9, s, 0);
    lemma_rule_skip(10, s, 0);
    lemma_rule_skip(11, s, 0);
    lemma_rule_skip(12, s, 0);
    lemma_rule_skip(13, s, 0);
    lemma_rule_skip(14, s, 0);
    lemma_rule_skip(15, s, 0);
    assert(prefix_rules().skip(16)[0] == prefix_rules()[16]);
    assert(s.subrange(0, "VisionKit."@.len() as int) =~= "VisionKit."@);
    lemma_not_prefix_at(apple_prefix(), s, 0);
    lemma_apple_prefix_is_ignored(s);
    assert("com.apple."@ + "VisionKit."@ + rest =~= apple_prefix() + s);
}

/// Names under `camera.` are Media.
proof fn lemma_rule_17(rest: Seq<char>)
    ensures
        category_of("camera."@ + rest) == Category::Media,
        category_of("com.apple."@ + "camera."@ + rest) == Category::Media,
{
    lemma_rules_table();
    reveal_strlit("camera.");
    reveal_strlit("com.apple.");
    reveal_strlit("osanalytics.appUsage");
    reveal_strlit("appkit.app_config");
    reveal_strlit("locationd.");
    reveal_strlit("CoreRoutine.");
    reveal_strlit("MicroLocation.");
    reveal_strlit("wifi.");
    reveal_strlit("Bluetooth.");
    reveal_strlit("CoreML.");
    reveal_strlit("LLMInferenceEvent");
    reveal_strlit("intelligenceplatform.");
    reveal_strlit("GenerativeModels.");
    reveal_strlit("Espresso.");
    reveal_strlit("proactive.PersonalizationPortrait.");
    reveal_strlit("parsecd.");
    reveal_strlit("photos.");
    reveal_strlit("mediaanalysisd.");
    reveal_strlit("VisionKit.");
    let s = "camera."@ + rest;
    assert(prefix_rules().skip(0) =~= prefix_rules());
    lemma_rule_skip(0, s, 0);
    lemma_rule_skip(1, s, 0);
    lemma_rule_skip(2, s, 0);
    lemma_rule_skip(3, s, 0);
    lemma_rule_skip(4, s, 0);
    lemma_rule_skip(5, s, 0);
    lemma_rule_skip(6, s, 0);
    lemma_rule_skip(7, s, 0);
    lemma_rule_skip(8, s, 0);
    lemma_rule_skip(9, s, 0);
    lemma_rule_skip(10, s, 0);
    lemma_rule_skip(11, s, 0);
    lemma_rule_skip(12, s, 0);
    lemma_rule_skip(13, s, 0);
    lemma_rule_skip(14, s, 0);
    lemma_rule_skip(15, s, 0);
    lemma_rule_skip(16, s, 0);
    assert(prefix_rules().skip(17)[0] == prefix_rules()[17]);
    assert(s.subrange(0, "camera."@.len() as int) =~= "camera."@);
    lemma_not_prefix_at(apple_prefix(), s, 1);
    lemma_apple_prefix_is_ignored(s);
    assert("com.apple."@ + "camera."@ + rest =~= apple_prefix() + s);
}

/// Names under `Messages.` are Comms.
proof fn lemma_rule_18(rest: Seq<char>)
    ensures
        category_of("Messages."@ + rest) == Category::Comms,
        category_of("com.apple."@ + "Messages."@ + rest) == Category::Comms,
{
    lemma_rules_table();
    reveal_strlit("Messages.");
    reveal_strlit("com.apple.");
    reveal_strlit("osanalytics.appUsage");
    reveal_strlit("appkit.app_config");
    reveal_strlit("locationd.");
    reveal_strlit("CoreRoutine.");
    reveal_strlit("MicroLocation.");
    reveal_strlit("wifi.");
    reveal_strlit("Bluetooth.");
    reveal_strlit("CoreML.");
    reveal_strlit("LLMInferenceEvent");
    reveal_strlit("intelligenceplatform.");
    reveal_strlit("GenerativeModels.");
    reveal_strlit("Espresso.");
    reveal_strlit("proactive.PersonalizationPortrait.");
    reveal_strlit("parsecd.");
    reveal_strlit("photos.");
    reveal_strlit("mediaanalysisd.");
    reveal_strlit("VisionKit.");
    reveal_strlit("camera.");
    let s = "Messages."@ + rest;
    assert(prefix_rules().skip(0) =~= prefix_rules());
    lemma_rule_skip(0, s, 0);
    lemma_rule_skip(1, s, 0);
    lemma_rule_skip(2, s, 0);
    lemma_rule_skip(3, s, 0);
    lemma_rule_skip(4, s, 1);
    lemma_rule_skip(5, s, 0);
    lemma_rule_skip(6, s, 0);
    lemma_rule_skip(7, s, 0);
    lemma_rule_skip(8, s, 0);
    lemma_rule_skip(9, s, 0);
    lemma_rule_skip(10, s, 0);
    lemma_rule_skip(11, s, 0);
    lemma_rule_skip(12, s, 0);
    lemma_rule_skip(13, s, 0);
    lemma_rule_skip(14, s, 0);
    lemma_rule_skip(15, s, 0);
    lemma_rule_skip(16, s, 0);
    lemma_rule_skip(17, s, 0);
    assert(prefix_rules().skip(18)[0] == prefix_rules()[18]);
    assert(s.subrange(0, "Messages."@.len() as int) =~= "Messages."@);
    lemma_not_prefix_at(apple_prefix(), s, 0);
    lemma_apple_prefix_is_ignored(s);
    assert("com.apple."@ + "Messages."@ + rest =~= apple_prefix() + s);
}

/// Names under `Siri.` are Comms.
proof fn lemma_rule_19(rest: Seq<char>)
    ensures
        category_of("Siri."@ + rest) == Category::Comms,
        category_of("com.apple."@ + "Siri."@ + rest) == Category::Comms,
{
    lemma_rules_table();
    reveal_strlit("Siri.");
    reveal_strlit("com.apple.");
    reveal_strlit("osanalytics.appUsage");
    reveal_strlit("appkit.app_config");
    reveal_strlit("locationd.");
    reveal_strlit("CoreRoutine.");
    reveal_strlit("MicroLocation.");
    reveal_strlit("wifi.");
    reveal_strlit("Bluetooth.");
    reveal_strlit("CoreML.");
    reveal_strlit("LLMInferenceEvent");
    reveal_strlit("intelligenceplatform.");
    reveal_strlit("GenerativeModels.");
    reveal_strlit("Espresso.");
    reveal_strlit("proactive.PersonalizationPortrait.");
    reveal_strlit("parsecd.");
    reveal_strlit("photos.");
    reveal_strlit("mediaanalysisd.");
    reveal_strlit("VisionKit.");
    reveal_strlit("camera.");
    reveal_strlit("Messages.");
    let s = "Siri."@ + rest;
    assert(prefix_rules().skip(0) =~= prefix_rules());
    lemma_rule_skip(0, s, 0);
    lemma_rule_skip(1, s, 0);
    lemma_rule_skip(2, s, 0);
    lemma_rule_skip(3, s, 0);
    lemma_rule_skip(4, s, 0);
    lemma_rule_skip(5, s, 0);
    lemma_rule_skip(6, s, 0);
    lemma_rule_skip(7, s, 0);
    lemma_rule_skip(8, s, 0);
    lemma_rule_skip(9, s, 0);
    lemma_rule_skip(10, s, 0);
    lemma_rule_skip(11, s, 0);
    lemma_rule_skip(12, s, 0);
    lemma_rule_skip(13, s, 0);
    lemma_rule_skip(14, s, 0);
    lemma_rule_skip(15, s, 0);
    lemma_rule_skip(16, s, 0);
    lemma_rule_skip(17, s, 0);
    lemma_rule_skip(18, s, 0);
    assert(prefix_rules().skip(19)[0] == prefix_rules()[19]);
    assert(s.subrange(0, "Siri."@.len() as int) =~= "Siri."@);
    lemma_not_prefix_at(apple_prefix(), s, 0);
    lemma_apple_prefix_is_ignored(s);
    assert("com.apple."@ + "Siri."@ + rest =~= apple_prefix() + s);
}

/// Names under `Keyboard.` are Comms.
proof fn lemma_rule_20(rest: Seq<char>)
    ensures
        category_of("Keyboard."@ + rest) == Category::Comms,
        category_of("com.apple."@ + "Keyboard."@ + rest) == Category::Comms,
{
    lemma_rules_table();
    reveal_strlit("Keyboard.");
    reveal_strlit("com.apple.");
    reveal_strlit("osanalytics.appUsage");
    reveal_strlit("appkit.app_config");
    reveal_strlit("locationd.");
    reveal_strlit("CoreRoutine.");
    reveal_strlit("MicroLocation.");
    reveal_strlit("wifi.");
    reveal_strlit("Bluetooth.");
    reveal_strlit("CoreML.");
    reveal_strlit("LLMInferenceEvent");
    reveal_strlit("intelligenceplatform.");
    reveal_strlit("GenerativeModels.");
    reveal_strlit("Espresso.");
    reveal_strlit("proactive.PersonalizationPortrait.");
    reveal_strlit("parsecd.");
    reveal_strlit("photos.");
    reveal_strlit("mediaanalysisd.");
    reveal_strlit("VisionKit.");
    reveal_strlit("camera.");
    reveal_strlit("Messages.");
    reveal_strlit("Siri.");
    let s = "Keyboard."@ + rest;
    assert(prefix_rules().skip(0) =~= prefix_rules());
    lemma_rule_skip(0, s, 0);
    lemma_rule_skip(1, s, 0);
    lemma_rule_skip(2, s, 0);
    lemma_rule_skip(3, s, 0);
    lemma_rule_skip(4, s, 0);
    lemma_rule_skip(5, s, 0);
    lemma_rule_skip(6, s, 0);
    lemma_rule_skip(7, s, 0);
    lemma_rule_skip(8, s, 0);
    lemma_rule_skip(9, s, 0);
    lemma_rule_skip(10, s, 0);
    lemma_rule_skip(11, s, 0);
    lemma_rule_skip(12, s, 0);
    lemma_rule_skip(13, s, 0);
    lemma_rule_skip(14, s, 0);
    lemma_rule_skip(15, s, 0);
    lemma_rule_skip(16, s, 0);
    lemma_rule_skip(17, s, 0);
    lemma_rule_skip(18, s, 0);
    lemma_rule_skip(19, s, 0);
    assert(prefix_rules().skip(20)[0] == prefix_rules()[20]);
    assert(s.subrange(0, "Keyboard."@.len() as int) =~= "Keyboard."@);
    lemma_not_prefix_at(apple_prefix(), s, 0);
    lemma_apple_prefix_is_ignored(s);
    assert("com.apple."@ + "Keyboard."@ + rest =~= apple_prefix() + s);
}

/// Names under `syspolicy.` are Security.
proof fn lemma_rule_21(rest: Seq<char>)
    ensures
        category_of("syspolicy."@ + rest) == Category::Security,
        category_of("com.apple."@ + "syspolicy."@ + rest) == Category::Security,
{
    lemma_rules_table();
    reveal_strlit("syspolicy.");
    reveal_strlit("com.apple.");
    reveal_strlit("osanalytics.appUsage");
    reveal_strlit("appkit.app_config");
    reveal_strlit("locationd.");
    reveal_strlit("CoreRoutine.");
    reveal_strlit("MicroLocation.");
    reveal_strlit("wifi.");
    reveal_strlit("Bluetooth.");
    reveal_strlit("CoreML.");
    reveal_strlit("LLMInferenceEvent");
    reveal_strlit("intelligenceplatform.");
    reveal_strlit("GenerativeModels.");
    reveal_strlit("Espresso.");
    reveal_strlit("proactive.PersonalizationPortrait.");
    reveal_strlit("parsecd.");
    reveal_strlit("photos.");
    reveal_strlit("mediaanalysisd.");
    reveal_strlit("VisionKit.");
    reveal_strlit("camera.");
    reveal_strlit("Messages.");
    reveal_strlit("Siri.");
    reveal_strlit("Keyboard.");
    let s = "syspolicy."@ + rest;
    assert(prefix_rules().skip(0) =~= prefix_rules());
    lemma_rule_skip(0, s, 0);
    lemma_rule_skip(1, s, 0);
    lemma_rule_skip(2, s, 0);
    lemma_rule_skip(3, s, 0);
    lemma_rule_skip(4, s, 0);
    lemma_rule_skip(5, s, 0);
    lemma_rule_skip(6, s, 0);
    lemma_rule_skip(7, s, 0);
    lemma_rule_skip(8, s, 0);
    lemma_rule_skip(9, s, 0);
    lemma_rule_skip(10, s, 0);
    lemma_rule_skip(11, s, 0);
    lemma_rule_skip(12, s, 0);
    lemma_rule_skip(13, s, 0);
    lemma_rule_skip(14, s, 0);
    lemma_rule_skip(15, s, 0);
    lemma_rule_skip(16, s, 0);
    lemma_rule_skip(17, s, 0);
    lemma_rule_skip(18, s, 0);
    lemma_rule_skip(19, s, 0);
    lemma_rule_skip(20, s, 0);
    assert(prefix_rules().skip(21)[0] == prefix_rules()[21]);
    assert(s.subrange(0, "syspolicy."@.len() as int) =~= "syspolicy."@);
    lemma_not_prefix_at(apple_prefix(), s, 0);
    lemma_apple_prefix_is_ignored(s);
    assert("com.apple."@ + "syspolicy."@ + rest =~= apple_prefix() + s);
}

/// Names under `security.` are Security.
proof fn lemma_rule_22(rest: Seq<char>)
    ensures
        category_of("security."@ + rest) == Category::Security,
        category_of("com.apple."@ + "security."@ + rest) == Category::Security,
{
    lemma_rules_table();
    reveal_strlit("security.");
    reveal_strlit("com.apple.");
    reveal_strlit("osanalytics.appUsage");
    reveal_strlit("appkit.app_config");
    reveal_strlit("locationd.");
    reveal_strlit("CoreRoutine.");
    reveal_strlit("MicroLocation.");
    reveal_strlit("wifi.");
    reveal_strlit("Bluetooth.");
    reveal_strlit("CoreML.");
    reveal_strlit("LLMInferenceEvent");
    reveal_strlit("intelligenceplatform.");
    reveal_strlit("GenerativeModels.");
    reveal_strlit("Espresso.");
    reveal_strlit("proactive.PersonalizationPortrait.");
    reveal_strlit("parsecd.");
    reveal_strlit("photos.");
    reveal_strlit("mediaanalysisd.");
    reveal_strlit("VisionKit.");
    reveal_strlit("camera.");
    reveal_strlit("Messages.");
    reveal_strlit("Siri.");
    reveal_strlit("Keyboard.");
    reveal_strlit("syspolicy.");
    let s = "security."@ + rest;
    assert(prefix_rules().skip(0) =~= prefix_rules());
    lemma_rule_skip(0, s, 0);
    lemma_rule_skip(1, s, 0);
    lemma_rule_skip(2, s, 0);
    lemma_rule_skip(3, s, 0);
    lemma_rule_skip(4, s, 0);
    lemma_rule_skip(5, s, 0);
    lemma_rule_skip(6, s, 0);
    lemma_rule_skip(7, s, 0);
    lemma_rule_skip(8, s, 0);
    lemma_rule_skip(9, s, 0);
    lemma_rule_skip(10, s, 0);
    lemma_rule_skip(11, s, 0);
    lemma_rule_skip(12, s, 0);
    lemma_rule_skip(13, s, 0);
    lemma_rule_skip(14, s, 0);
    lemma_rule_skip(15, s, 0);
    lemma_rule_skip(16, s, 0);
    lemma_rule_skip(17, s, 0);
    lemma_rule_skip(18, s, 0);
    lemma_rule_skip(19, s, 0);
    lemma_rule_skip(20, s, 0);
    lemma_rule_skip(21, s, 1);
    assert(prefix_rules().skip(22)[0] == prefix_rules()[22]);
    assert(s.subrange(0, "security."@.len() as int) =~= "security."@);
    lemma_not_prefix_at(apple_prefix(), s, 0);
    lemma_apple_prefix_is_ignored(s);
    assert("com.apple."@ + "security."@ + rest =~= apple_prefix() + s);
}

/// Names under `Safari.` are Safari.
proof fn lemma_rule_23(rest: Seq<char>)
    ensures
        category_of("Safari."@ + rest) == Category::Safari,
        category_of("com.apple."@ + "Safari."@ + rest) == Category::Safari,
{
    lemma_rules_table();
    reveal_strlit("Safari.");
    reveal_strlit("com.apple.");
    reveal_strlit("osanalytics.appUsage");
    reveal_strlit("appkit.app_config");
    reveal_strlit("locationd.");
    reveal_strlit("CoreRoutine.");
    reveal_strlit("MicroLocation.");
    reveal_strlit("wifi.");
    reveal_strlit("Bluetooth.");
    reveal_strlit("CoreML.");
    reveal_strlit("LLMInferenceEvent");
    reveal_strlit("intelligenceplatform.");
    reveal_strlit("GenerativeModels.");
    reveal_strlit("Espresso.");
    reveal_strlit("proactive.PersonalizationPortrait.");
    reveal_strlit("parsecd.");
    reveal_strlit("photos.");
    reveal_strlit("mediaanalysisd.");
    reveal_strlit("VisionKit.");
    reveal_strlit("camera.");
    reveal_strlit("Messages.");
    reveal_strlit("Siri.");
    reveal_strlit("Keyboard.");
    reveal_strlit("syspolicy.");
    reveal_strlit("security.");
    let s = "Safari."@ + rest;
    assert(prefix_rules().skip(0) =~= prefix_rules());
    lemma_rule_skip(0, s, 0);
    lemma_rule_skip(1, s, 0);
    lemma_rule_skip(2, s, 0);
    lemma_rule_skip(3, s, 0);
    lemma_rule_skip(4, s, 0);
    lemma_rule_skip(5, s, 0);
    lemma_rule_skip(6, s, 0);
    lemma_rule_skip(7, s, 0);
    lemma_rule_skip(8, s, 0);
    lemma_rule_skip(9, s, 0);
    lemma_rule_skip(10, s, 0);
    lemma_rule_skip(11, s, 0);
    lemma_rule_skip(12, s, 0);
    lemma_rule_skip(13, s, 0);
    lemma_rule_skip(14, s, 0);
    lemma_rule_skip(15, s, 0);
    lemma_rule_skip(16, s, 0);
    lemma_rule_skip(17, s, 0);
    lemma_rule_skip(18, s, 0);
    lemma_rule_skip(19, s, 1);
    lemma_rule_skip(20, s, 0);
    lemma_rule_skip(21, s, 0);
    lemma_rule_skip(22, s, 0);
    assert(prefix_rules().skip(23)[0] == prefix_rules()[23]);
    assert(s.subrange(0, "Safari."@.len() as int) =~= "Safari."@);
    lemma_not_prefix_at(apple_prefix(), s, 0);
    lemma_apple_prefix_is_ignored(s);
    assert("com.apple."@ + "Safari."@ + rest =~= apple_prefix() + s);
}

/// Names under `SafariShared.` are Safari.
proof fn lemma_rule_24(rest: Seq<char>)
    ensures
        category_of("SafariShared."@ + rest) == Category::Safari,
        category_of("com.apple."@ + "SafariShared."@ + rest) == Category::Safari,
{
    lemma_rules_table();
    reveal_strlit("SafariShared.");
    reveal_strlit("com.apple.");
    reveal_strlit("osanalytics.appUsage");
    reveal_strlit("appkit.app_config");
    reveal_strlit("locationd.");
    reveal_strlit("CoreRoutine.");
    reveal_strlit("MicroLocation.");
    reveal_strlit("wifi.");
    reveal_strlit("Bluetooth.");
    reveal_strlit("CoreML.");
    reveal_strlit("LLMInferenceEvent");
    reveal_strlit("intelligenceplatform.");
    reveal_strlit("GenerativeModels.");
    reveal_strlit("Espresso.");
    reveal_strlit("proactive.PersonalizationPortrait.");
    reveal_strlit("parsecd.");
    reveal_strlit("photos.");
    reveal_strlit("mediaanalysisd.");
    reveal_strlit("VisionKit.");
    reveal_strlit("camera.");
    reveal_strlit("Messages.");
    reveal_strlit("Siri.");
    reveal_strlit("Keyboard.");
    reveal_strlit("syspolicy.");
    reveal_strlit("security.");
    reveal_strlit("Safari.");
    let s = "SafariShared."@ + rest;
    assert(prefix_rules().skip(0) =~= prefix_rules());
    lemma_rule_skip(0, s, 0);
    lemma_rule_skip(1, s, 0);
    lemma_rule_skip(2, s, 0);
    lemma_rule_skip(3, s, 0);
    lemma_rule_skip(4, s, 0);
    lemma_rule_skip(5, s, 0);
    lemma_rule_skip(6, s, 0);
    lemma_rule_skip(7, s, 0);
    lemma_rule_skip(8, s, 0);
    lemma_rule_skip(9, s, 0);
    lemma_rule_skip(10, s, 0);
    lemma_rule_skip(11, s, 0);
    lemma_rule_skip(12, s, 0);
    lemma_rule_skip(13, s, 0);
    lemma_rule_skip(14, s, 0);
    lemma_rule_skip(15, s, 0);
    lemma_rule_skip(16, s, 0);
    lemma_rule_skip(17, s, 0);
    lemma_rule_skip(18, s, 0);
    lemma_rule_skip(19, s, 1);
    lemma_rule_skip(20, s, 0);
    lemma_rule_skip(21, s, 0);
    lemma_rule_skip(22, s, 0);
    lemma_rule_skip(23, s, 6);
    assert(prefix_rules().skip(24)[0] == prefix_rules()[24]);
    assert(s.subrange(0, "SafariShared."@.len() as int) =~= "SafariShared."@);
    lemma_not_prefix_at(apple_prefix(), s, 0);
    lemma_apple_prefix_is_ignored(s);
    assert("com.apple."@ + "SafariShared."@ + rest =~= apple_prefix() + s);
}

/// Names under `power.` are System.
proof fn lemma_rule_25(rest: Seq<char>)
    ensures
        category_of("power."@ + rest) == Category::System,
        category_of("com.apple."@ + "power."@ + rest) == Category::System,
{
    lemma_rules_table();
    reveal_strlit("power.");
    reveal_strlit("com.apple.");
    reveal_strlit("osanalytics.appUsage");
    reveal_strlit("appkit.app_config");
    reveal_strlit("locationd.");
    reveal_strlit("CoreRoutine.");
    reveal_strlit("MicroLocation.");
    reveal_strlit("wifi.");
    reveal_strlit("Bluetooth.");
    reveal_strlit("CoreML.");
    reveal_strlit("LLMInferenceEvent");
    reveal_strlit("intelligenceplatform.");
    reveal_strlit("GenerativeModels.");
    reveal_strlit("Espresso.");
    reveal_strlit("proactive.PersonalizationPortrait.");
    reveal_strlit("parsecd.");
    reveal_strlit("photos.");
    reveal_strlit("mediaanalysisd.");
    reveal_strlit("VisionKit.");
    reveal_strlit("camera.");
    reveal_strlit("Messages.");
    reveal_strlit("Siri.");
    reveal_strlit("Keyboard.");
    reveal_strlit("syspolicy.");
    reveal_strlit("security.");
    reveal_strlit("Safari.");
    reveal_strlit("SafariShared.");
    let s = "power."@ + rest;
    assert(prefix_rules().skip(0) =~= prefix_rules());
    lemma_rule_skip(0, s, 0);
    lemma_rule_skip(1, s, 0);
    lemma_rule_skip(2, s, 0);
    lemma_rule_skip(3, s, 0);
    lemma_rule_skip(4, s, 0);
    lemma_rule_skip(5, s, 0);
    lemma_rule_skip(6, s, 0);
    lemma_rule_skip(7, s, 0);
    lemma_rule_skip(8, s, 0);
    lemma_rule_skip(9, s, 0);
    lemma_rule_skip(10, s, 0);
    lemma_rule_skip(11, s, 0);
    lemma_rule_skip(12, s, 1);
    lemma_rule_skip(13, s, 1);
    lemma_rule_skip(14, s, 1);
    lemma_rule_skip(15, s, 0);
    lemma_rule_skip(16, s, 0);
    lemma_rule_skip(17, s, 0);
    lemma_rule_skip(18, s, 0);
    lemma_rule_skip(19, s, 0);
    lemma_rule_skip(20, s, 0);
    lemma_rule_skip(21, s, 0);
    lemma_rule_skip(22, s, 0);
    lemma_rule_skip(23, s, 0);
    lemma_rule_skip(24, s, 0);
    assert(prefix_rules().skip(25)[0] == prefix_rules()[25]);
    assert(s.subrange(0, "power."@.len() as int) =~= "power."@);
    lemma_not_prefix_at(apple_prefix(), s, 0);
    lemma_apple_prefix_is_ignored(s);
    assert("com.apple."@ + "power."@ + rest =~= apple_prefix() + s);
}

/// Names under `memorytools.` are System.
proof fn lemma_rule_26(rest: Seq<char>)
    ensures
        category_of("memorytools."@ + rest) == Category::System,
        category_of("com.apple."@ + "memorytools."@ + rest) == Category::System,
{
    lemma_rules_table();
    reveal_strlit("memorytools.");
    reveal_strlit("com.apple.");
    reveal_strlit("osanalytics.appUsage");
    reveal_strlit("appkit.app_config");
    reveal_strlit("locationd.");
    reveal_strlit("CoreRoutine.");
    reveal_strlit("MicroLocation.");
    reveal_strlit("wifi.");
    reveal_strlit("Bluetooth.");
    reveal_strlit("CoreML.");
    reveal_strlit("LLMInferenceEvent");
    reveal_strlit("intelligenceplatform.");
    reveal_strlit("GenerativeModels.");
    reveal_strlit("Espresso.");
    reveal_strlit("proactive.PersonalizationPortrait.");
    reveal_strlit("parsecd.");
    reveal_strlit("photos.");
    reveal_strlit("mediaanalysisd.");
    reveal_strlit("VisionKit.");
    reveal_strlit("camera.");
    reveal_strlit("Messages.");
    reveal_strlit("Siri.");
    reveal_strlit("Keyboard.");
    reveal_strlit("syspolicy.");
    reveal_strlit("security.");
    reveal_strlit("Safari.");
    reveal_strlit("SafariShared.");
    reveal_strlit("power.");
    let s = "memorytools."@ + rest;
    assert(prefix_rules().skip(0) =~= prefix_rules());
    lemma_rule_skip(0, s, 0);
    lemma_rule_skip(1, s, 0);
    lemma_rule_skip(2, s, 0);
    lemma_rule_skip(3, s, 0);
    lemma_rule_skip(4, s, 0);
    lemma_rule_skip(5, s, 0);
    lemma_rule_skip(6, s, 0);
    lemma_rule_skip(7, s, 0);
    lemma_rule_skip(8, s, 0);
    lemma_rule_skip(9, s, 0);
    lemma_rule_skip(10, s, 0);
    lemma_rule_skip(11, s, 0);
    lemma_rule_skip(12, s, 0);
    lemma_rule_skip(13, s, 0);
    lemma_rule_skip(14, s, 0);
    lemma_rule_skip(15, s, 2);
    lemma_rule_skip(16, s, 0);
    lemma_rule_skip(17, s, 0);
    lemma_rule_skip(18, s, 0);
    lemma_rule_skip(19, s, 0);
    lemma_rule_skip(20, s, 0);
    lemma_rule_skip(21, s, 0);
    lemma_rule_skip(22, s, 0);
    lemma_rule_skip(23, s, 0);
    lemma_rule_skip(24, s, 0);
    lemma_rule_skip(25, s, 0);
    assert(prefix_rules().skip(26)[0] == prefix_rules()[26]);
    assert(s.subrange(0, "memorytools."@.len() as int) =~= "memorytools."@);
    lemma_not_prefix_at(apple_prefix(), s, 0);
    lemma_apple_prefix_is_ignored(s);
    assert("com.apple."@ + "memorytools."@ + rest =~= apple_prefix() + s);
}

/// Names under `dasd.` are System.
proof fn lemma_rule_27(rest: Seq<char>)
    ensures
        category_of("dasd."@ + rest) == Category::System,
        category_of("com.apple."@ + "dasd."@ + rest) == Category::System,
{
    lemma_rules_table();
    reveal_strlit("dasd.");
    reveal_strlit("com.apple.");
    reveal_strlit("osanalytics.appUsage");
    reveal_strlit("appkit.app_config");
    reveal_strlit("locationd.");
    reveal_strlit("CoreRoutine.");
    reveal_strlit("MicroLocation.");
    reveal_strlit("wifi.");
    reveal_strlit("Bluetooth.");
    reveal_strlit("CoreML.");
    reveal_strlit("LLMInferenceEvent");
    reveal_strlit("intelligenceplatform.");
    reveal_strlit("GenerativeModels.");
    reveal_strlit("Espresso.");
    reveal_strlit("proactive.PersonalizationPortrait.");
    reveal_strlit("parsecd.");
    reveal_strlit("photos.");
    reveal_strlit("mediaanalysisd.");
    reveal_strlit("VisionKit.");
    reveal_strlit("camera.");
    reveal_strlit("Messages.");
    reveal_strlit("Siri.");
    reveal_strlit("Keyboard.");
    reveal_strlit("syspolicy.");
    reveal_strlit("security.");
    reveal_strlit("Safari.");
    reveal_strlit("SafariShared.");
    reveal_strlit("power.");
    reveal_strlit("memorytools.");
    let s = "dasd."@ + rest;
    assert(prefix_rules().skip(0) =~= prefix_rules());
    lemma_rule_skip(0, s, 0);
    lemma_rule_skip(1, s, 0);
    lemma_rule_skip(2, s, 0);
    lemma_rule_skip(3, s, 0);
    lemma_rule_skip(4, s, 0);
    lemma_rule_skip(5, s, 0);
    lemma_rule_skip(6, s, 0);
    lemma_rule_skip(7, s, 0);
    lemma_rule_skip(8, s, 0);
    lemma_rule_skip(9, s, 0);
    lemma_rule_skip(10, s, 0);
    lemma_rule_skip(11, s, 0);
    lemma_rule_skip(12, s, 0);
    lemma_rule_skip(13, s, 0);
    lemma_rule_skip(14, s, 0);
    lemma_rule_skip(15, s, 0);
    lemma_rule_skip(16, s, 0);
    lemma_rule_skip(17, s, 0);
    lemma_rule_skip(18, s, 0);
    lemma_rule_skip(19, s, 0);
    lemma_rule_skip(20, s, 0);
    lemma_rule_skip(21, s, 0);
    lemma_rule_skip(22, s, 0);
    lemma_rule_skip(23, s, 0);
    lemma_rule_skip(24, s, 0);
    lemma_rule_skip(25, s, 0);
    lemma_rule_skip(26, s, 0);
    assert(prefix_rules().skip(27)[0] == prefix_rules()[27]);
    assert(s.subrange(0, "dasd."@.len() as int) =~= "dasd."@);
    lemma_not_prefix_at(apple_prefix(), s, 0);
    lemma_apple_prefix_is_ignored(s);
    assert("com.apple."@ + "dasd."@ + rest =~= apple_prefix() + s);
}

/// Names under `cachedelete.` are System.
proof fn lemma_rule_28(rest: Seq<char>)
    ensures
        category_of("cachedelete."@ + rest) == Category::System,
        category_of("com.apple."@ + "cachedelete."@ + rest) == Category::System,
{
    lemma_rules_table();
    reveal_strlit("cachedelete.");
    reveal_strlit("com.apple.");
    reveal_strlit("osanalytics.appUsage");
    reveal_strlit("appkit.app_config");
    reveal_strlit("locationd.");
    reveal_strlit("CoreRoutine.");
    reveal_strlit("MicroLocation.");
    reveal_strlit("wifi.");
    reveal_strlit("Bluetooth.");
    reveal_strlit("CoreML.");
    reveal_strlit("LLMInferenceEvent");
    reveal_strlit("intelligenceplatform.");
    reveal_strlit("GenerativeModels.");
    reveal_strlit("Espresso.");
    reveal_strlit("proactive.PersonalizationPortrait.");
    reveal_strlit("parsecd.");
    reveal_strlit("photos.");
    reveal_strlit("mediaanalysisd.");
    reveal_strlit("VisionKit.");
    reveal_strlit("camera.");
    reveal_strlit("Messages.");
    reveal_strlit("Siri.");
    reveal_strlit("Keyboard.");
    reveal_strlit("syspolicy.");
    reveal_strlit("security.");
    reveal_strlit("Safari.");
    reveal_strlit("SafariShared.");
    reveal_strlit("power.");
    reveal_strlit("memorytools.");
    reveal_strlit("dasd.");
    let s = "cachedelete."@ + rest;
    assert(prefix_rules().skip(0) =~= prefix_rules());
    lemma_rule_skip(0, s, 0);
    lemma_rule_skip(1, s, 0);
    lemma_rule_skip(2, s, 0);
    lemma_rule_skip(3, s, 0);
    lemma_rule_skip(4, s, 0);
    lemma_rule_skip(5, s, 0);
    lemma_rule_skip(6, s, 0);
    lemma_rule_skip(7, s, 0);
    lemma_rule_skip(8, s, 0);
    lemma_rule_skip(9, s, 0);
    lemma_rule_skip(10, s, 0);
    lemma_rule_skip(11, s, 0);
    lemma_rule_skip(12, s, 0);
    lemma_rule_skip(13, s, 0);
    lemma_rule_skip(14, s, 0);
    lemma_rule_skip(15, s, 0);
    lemma_rule_skip(16, s, 0);
    lemma_rule_skip(17, s, 2);
    lemma_rule_skip(18, s, 0);
    lemma_rule_skip(19, s, 0);
    lemma_rule_skip(20, s, 0);
    lemma_rule_skip(21, s, 0);
    lemma_rule_skip(22, s, 0);
    lemma_rule_skip(23, s, 0);
    lemma_rule_skip(24, s, 0);
    lemma_rule_skip(25, s, 0);
    lemma_rule_skip(26, s, 0);
    lemma_rule_skip(27, s, 0);
    assert(prefix_rules().skip(28)[0] == prefix_rules()[28]);
    assert(s.subrange(0, "cachedelete."@.len() as int) =~= "cachedelete."@);
    lemma_not_prefix_at(apple_prefix(), s, 1);
    lemma_apple_prefix_is_ignored(s);
    assert("com.apple."@ + "cachedelete."@ + rest =~= apple_prefix() + s);
}

/// Each documented event-name prefix gives its category, with or without
/// the leading `com.apple.`: app usage and app config are Apps; locationd,
/// CoreRoutine and MicroLocation are Location; wifi and Bluetooth are
/// Network; CoreML, LLM inference, the intelligence platform, generative
/// models and Espresso are AI; the personalization portrait and parsecd are
/// Behavioral; photos, media analysis, VisionKit and camera are Media;
/// Messages, Siri and Keyboard are Comms; syspolicy and security are
/// Security; Safari and SafariShared are Safari; power, memory tools, dasd
/// and cache delete are System.
pub proof fn lemma_documented_prefixes(rest: Seq<char>)
    ensures
        category_of("osanalytics.appUsage"@ + rest) == Category::Apps,
        category_of("com.apple."@ + "osanalytics.appUsage"@ + rest) == Category::Apps,
        category_of("appkit.app_config"@ + rest) == Category::Apps,
        category_of("com.apple."@ + "appkit.app_config"@ + rest) == Category::Apps,
        category_of("locationd."@ + rest) == Category::Location,
        category_of("com.apple."@ + "locationd."@ + rest) == Category::Location,
        category_of("CoreRoutine."@ + rest) == Category::Location,
        category_of("com.apple."@ + "CoreRoutine."@ + rest) == Category::Location,
        category_of("MicroLocation."@ + rest) == Category::Location,
        category_of("com.apple."@ + "MicroLocation."@ + rest) == Category::Location,
        category_of("wifi."@ + rest) == Category::Network,
        category_of("com.apple."@ + "wifi."@ + rest) == Category::Network,
        category_of("Bluetooth."@ + rest) == Category::Network,
        category_of("com.apple."@ + "Bluetooth."@ + rest) == Category::Network,
        category_of("CoreML."@ + rest) == Category::Ai,
        category_of("com.apple."@ + "CoreML."@ + rest) == Category::Ai,
        category_of("LLMInferenceEvent"@ + rest) == Category::Ai,
        category_of("com.apple."@ + "LLMInferenceEvent"@ + rest) == Category::Ai,
        category_of("intelligenceplatform."@ + rest) == Category::Ai,
        category_of("com.apple."@ + "intelligenceplatform."@ + rest) == Category::Ai,
        category_of("GenerativeModels."@ + rest) == Category::Ai,
        category_of("com.apple."@ + "GenerativeModels."@ + rest) == Category::Ai,
        category_of("Espresso."@ + rest) == Category::Ai,
        category_of("com.apple."@ + "Espresso."@ + rest) == Category::Ai,
        category_of("proactive.PersonalizationPortrait."@ + rest) == Category::Behavioral,
        category_of("com.apple."@ + "proactive.PersonalizationPortrait."@ + rest) == Category::Behavioral,
        category_of("parsecd."@ + rest) == Category::Behavioral,
        category_of("com.apple."@ + "parsecd."@ + rest) == Category::Behavioral,
        category_of("photos."@ + rest) == Category::Media,
        category_of("com.apple."@ + "photos."@ + rest) == Category::Media,
        category_of("mediaanalysisd."@ + rest) == Category::Media,
        category_of("com.apple."@ + "mediaanalysisd."@ + rest) == Category::Media,
        category_of("VisionKit."@ + rest) == Category::Media,
        category_of("com.apple."@ + "VisionKit."@ + rest) == Category::Media,
        category_of("camera."@ + rest) == Category::Media,
        category_of("com.apple."@ + "camera."@ + rest) == Category::Media,
        category_of("Messages."@ + rest) == Category::Comms,
        category_of("com.apple."@ + "Messages."@ + rest) == Category::Comms,
        category_of("Siri."@ + rest) == Category::Comms,
        category_of("com.apple."@ + "Siri."@ + rest) == Category::Comms,
        category_of("Keyboard."@ + rest) == Category::Comms,
        category_of("com.apple."@ + "Keyboard."@ + rest) == Category::Comms,
        category_of("syspolicy."@ + rest) == Category::Security,
        category_of("com.apple."@ + "syspolicy."@ + rest) == Category::Security,
        category_of("security."@ + rest) == Category::Security,
        category_of("com.apple."@ + "security."@ + rest) == Category::Security,
        category_of("Safari."@ + rest) == Category::Safari,
        category_of("com.apple."@ + "Safari."@ + rest) == Category::Safari,
        category_of("SafariShared."@ + rest) == Category::Safari,
        category_of("com.apple."@ + "SafariShared."@ + rest) == Category::Safari,
        category_of("power."@ + rest) == Category::System,
        category_of("com.apple."@ + "power."@ + rest) == Category::System,
        category_of("memorytools."@ + rest) == Category::System,
        category_of("com.apple."@ + "memorytools."@ + rest) == Category::System,
        category_of("dasd."@ + rest) == Category::System,
        category_of("com.apple."@ + "dasd."@ + rest) == Category::System,
        category_of("cachedelete."@ + rest) == Category::System,
        category_of("com.apple."@ + "cachedelete."@ + rest) == Category::System,
{
    lemma_rule_0(rest);
    lemma_rule_1(rest);
    lemma_rule_2(rest);
    lemma_rule_3(rest);
    lemma_rule_4(rest);
    lemma_rule_5(rest);
    lemma_rule_6(rest);
    lemma_rule_7(rest);
    lemma_rule_8(rest);
    lemma_rule_9(rest);
    lemma_rule_10(rest);
    lemma_rule_11(rest);
    lemma_rule_12(rest);
    lemma_rule_13(rest);
    lemma_rule_14(rest);
    lemma_rule_15(rest);
    lemma_rule_16(rest);
    lemma_rule_17(rest);
    lemma_rule_18(rest);
    lemma_rule_19(rest);
    lemma_rule_20(rest);
    lemma_rule_21(rest);
    lemma_rule_22(rest);
    lemma_rule_23(rest);
    lemma_rule_24(rest);
    lemma_rule_25(rest);
    lemma_rule_26(rest);
    lemma_rule_27(rest);
    lemma_rule_28(rest);
}

} // verus!
