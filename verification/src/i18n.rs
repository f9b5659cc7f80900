use vstd::prelude::*;

use crate::text::{chars_eq, chars_of, Chars};

verus! {

/// The Spanish text of a key; an unknown key is its own text.
pub open spec fn spanish_text(key: Chars) -> Chars {
    if key == "search_placeholder"@ {
        "Busca apps, comandos ('>') o archivos/carpetas ('/','~')..."@
    } else if key == "no_results"@ {
        "No se encontraron resultados"@
    } else if key == "no_files"@ {
        "Directorio vacío o no encontrado"@
    } else if key == "cmd_idle"@ {
        "Pulsa Enter para segundo plano, Ctrl+Enter para terminal"@
    } else if key == "cmd_running"@ {
        "Ejecutando comando..."@
    } else if key == "cmd_success"@ {
        "Comando ejecutado con éxito (sin salida)"@
    } else if key == "cmd_failed"@ {
        "El comando falló (sin salida de error)"@
    } else if key == "info_tip"@ {
        "Usa Arriba/Abajo para navegar. Izquierda/Derecha para cambiar valores. Auto-guardado."@
    } else if key == "setting_theme"@ {
        "Tema"@
    } else if key == "setting_terminal"@ {
        "Terminal Preferida"@
    } else if key == "setting_opacity"@ {
        "Opacidad de Fondo"@
    } else if key == "setting_width"@ {
        "Ancho de Ventana"@
    } else if key == "setting_height"@ {
        "Alto de Ventana"@
    } else if key == "setting_language"@ {
        "Idioma"@
    } else if key == "setting_browser"@ {
        "Navegador Web Preferido"@
    } else if key == "launch_tag"@ {
        "⏎ Lanzar"@
    } else {
        key
    }
}

/// The English text of a key; an unknown key is its own text.
pub open spec fn english_text(key: Chars) -> Chars {
    if key == "search_placeholder"@ {
        "Search apps, commands ('>') or files/folders ('/','~')..."@
    } else if key == "no_results"@ {
        "No results found"@
    } else if key == "no_files"@ {
        "Empty directory or not found"@
    } else if key == "cmd_idle"@ {
        "Press Enter to run in background, Ctrl+Enter to run in terminal"@
    } else if key == "cmd_running"@ {
        "Running command..."@
    } else if key == "cmd_success"@ {
        "Command executed successfully (no output)"@
    } else if key == "cmd_failed"@ {
        "Command failed (no error output)"@
    } else if key == "info_tip"@ {
        "Use Up/Down to navigate. Use Left/Right to change values. Changes auto-saved."@
    } else if key == "setting_theme"@ {
        "Theme"@
    } else if key == "setting_terminal"@ {
        "Preferred Terminal"@
    } else if key == "setting_opacity"@ {
        "Background Opacity"@
    } else if key == "setting_width"@ {
        "Window Width"@
    } else if key == "setting_height"@ {
        "Window Height"@
    } else if key == "setting_language"@ {
        "Language"@
    } else if key == "setting_browser"@ {
        "Preferred Web Browser"@
    } else if key == "launch_tag"@ {
        "⏎ Launch"@
    } else {
        key
    }
}

/// The text shown for a key in a language: Spanish for `ES`, English for any other.
pub open spec fn translation(key: Chars, lang: Chars) -> Chars {
    if lang == "ES"@ {
        spanish_text(key)
    } else {
        english_text(key)
    }
}

fn is_key(k: &Vec<char>, lit: &str) -> (r: bool)
    ensures
        r == (k@ == lit@),
{
    chars_eq(k, &chars_of(lit))
}

fn spanish<'a>(key: &'a str, k: &Vec<char>) -> (r: &'a str)
    requires
        k@ == key@,
    ensures
        r@ == spanish_text(key@),
{
    if is_key(k, "search_placeholder") {
        "Busca apps, comandos ('>') o archivos/carpetas ('/','~')..."
    } else if is_key(k, "no_results") {
        "No se encontraron resultados"
    } else if is_key(k, "no_files") {
        "Directorio vacío o no encontrado"
    } else if is_key(k, "cmd_idle") {
        "Pulsa Enter para segundo plano, Ctrl+Enter para terminal"
    } else if is_key(k, "cmd_running") {
        "Ejecutando comando..."
    } else if is_key(k, "cmd_success") {
        "Comando ejecutado con éxito (sin salida)"
    } else if is_key(k, "cmd_failed") {
        "El comando falló (sin salida de error)"
    } else if is_key(k, "info_tip") {
        "Usa Arriba/Abajo para navegar. Izquierda/Derecha para cambiar valores. Auto-guardado."
    } else if is_key(k, "setting_theme") {
        "Tema"
    } else if is_key(k, "setting_terminal") {
        "Terminal Preferida"
    } else if is_key(k, "setting_opacity") {
        "Opacidad de Fondo"
    } else if is_key(k, "setting_width") {
        "Ancho de Ventana"
    } else if is_key(k, "setting_height") {
        "Alto de Ventana"
    } else if is_key(k, "setting_language") {
        "Idioma"
    } else if is_key(k, "setting_browser") {
        "Navegador Web Preferido"
    } else if is_key(k, "launch_tag") {
        "⏎ Lanzar"
    } else {
        key
    }
}

fn english<'a>(key: &'a str, k: &Vec<char>) -> (r: &'a str)
    requires
        k@ == key@,
    ensures
        r@ == english_text(key@),
{
    if is_key(k, "search_placeholder") {
        "Search apps, commands ('>') or files/folders ('/','~')..."
    } else if is_key(k, "no_results") {
        "No results found"
    } else if is_key(k, "no_files") {
        "Empty directory or not found"
    } else if is_key(k, "cmd_idle") {
        "Press Enter to run in background, Ctrl+Enter to run in terminal"
    } else if is_key(k, "cmd_running") {
        "Running command..."
    } else if is_key(k, "cmd_success") {
        "Command executed successfully (no output)"
    } else if is_key(k, "cmd_failed") {
        "Command failed (no error output)"
    } else if is_key(k, "info_tip") {
        "Use Up/Down to navigate. Use Left/Right to change values. Changes auto-saved."
    } else if is_key(k, "setting_theme") {
        "Theme"
    } else if is_key(k, "setting_terminal") {
        "Preferred Terminal"
    } else if is_key(k, "setting_opacity") {
        "Background Opacity"
    } else if is_key(k, "setting_width") {
        "Window Width"
    } else if is_key(k, "setting_height") {
        "Window Height"
    } else if is_key(k, "setting_language") {
        "Language"
    } else if is_key(k, "setting_browser") {
        "Preferred Web Browser"
    } else if is_key(k, "launch_tag") {
        "⏎ Launch"
    } else {
        key
    }
}

/// Returns the interface text for `key` in the language `lang` (`ES` or English).
pub fn translate<'a>(key: &'a str, lang: &str) -> (r: &'a str)
    ensures
        r@ == translation(key@, lang@),
{
    let k = chars_of(key);
    if chars_eq(&chars_of(lang), &chars_of("ES")) {
        spanish(key, &k)
    } else {
        english(key, &k)
    }
}


/// The keys that have a text in both languages.
pub open spec fn translation_keys() -> Seq<Chars> {
    seq!["search_placeholder"@, "no_results"@, "no_files"@, "cmd_idle"@, "cmd_running"@, "cmd_success"@, "cmd_failed"@, "info_tip"@, "setting_theme"@, "setting_terminal"@, "setting_opacity"@, "setting_width"@, "setting_height"@, "setting_language"@, "setting_browser"@, "launch_tag"@]
}

/// Both languages give `key` a text of its own: not empty, not the key, and not the same
/// in Spanish as in English.
pub open spec fn text_is_translated(key: Chars) -> bool {
    let es = translation(key, "ES"@);
    let en = translation(key, "EN"@);
    &&& es.len() > 0
    &&& en.len() > 0
    &&& es != key
    &&& en != key
    &&& es != en
}

proof fn proof_key_0()
    ensures
        text_is_translated("search_placeholder"@),
{
    reveal_strlit("EN");
    reveal_strlit("ES");
    reveal_strlit("Search apps, commands ('>') or files/folders ('/','~')...");
    reveal_strlit("Busca apps, comandos ('>') o archivos/carpetas ('/','~')...");
    reveal_strlit("search_placeholder");
    assert("EN"@ != "ES"@) by {
        assert("EN"@[1] != "ES"@[1]);
    }
}

proof fn proof_key_1()
    ensures
        text_is_translated("no_results"@),
{
    reveal_strlit("EN");
    reveal_strlit("ES");
    reveal_strlit("No results found");
    reveal_strlit("No se encontraron resultados");
    reveal_strlit("no_results");
    reveal_strlit("search_placeholder");
    assert("EN"@ != "ES"@) by {
        assert("EN"@[1] != "ES"@[1]);
    }
    assert("no_results"@ != "search_placeholder"@) by {
        assert("no_results"@.len() != "search_placeholder"@.len());
    }
}

proof fn proof_key_2()
    ensures
        text_is_translated("no_files"@),
{
    reveal_strlit("EN");
    reveal_strlit("ES");
    reveal_strlit("Empty directory or not found");
    reveal_strlit("Directorio vacío o no encontrado");
    reveal_strlit("no_files");
    reveal_strlit("no_results");
    reveal_strlit("search_placeholder");
    assert("EN"@ != "ES"@) by {
        assert("EN"@[1] != "ES"@[1]);
    }
    assert("no_files"@ != "search_placeholder"@) by {
        assert("no_files"@.len() != "search_placeholder"@.len());
    }
    assert("no_files"@ != "no_results"@) by {
        assert("no_files"@.len() != "no_results"@.len());
    }
}

proof fn proof_key_3()
    ensures
        text_is_translated("cmd_idle"@),
{
    reveal_strlit("EN");
    reveal_strlit("ES");
    reveal_strlit("Press Enter to run in background, Ctrl+Enter to run in terminal");
    reveal_strlit("Pulsa Enter para segundo plano, Ctrl+Enter para terminal");
    reveal_strlit("cmd_idle");
    reveal_strlit("no_files");
    reveal_strlit("no_results");
    reveal_strlit("search_placeholder");
    assert("EN"@ != "ES"@) by {
        assert("EN"@[1] != "ES"@[1]);
    }
    assert("cmd_idle"@[0] != "no_files"@[0]);
    assert("cmd_idle"@ != "search_placeholder"@) by {
        assert("cmd_idle"@.len() != "search_placeholder"@.len());
    }
    assert("cmd_idle"@ != "no_results"@) by {
        assert("cmd_idle"@.len() != "no_results"@.len());
    }
    assert("cmd_idle"@ != "no_files"@);
}

proof fn proof_key_4()
    ensures
        text_is_translated("cmd_running"@),
{
    reveal_strlit("EN");
    reveal_strlit("ES");
    reveal_strlit("Running command...");
    reveal_strlit("Ejecutando comando...");
    reveal_strlit("cmd_idle");
    reveal_strlit("cmd_running");
    reveal_strlit("no_files");
    reveal_strlit("no_results");
    reveal_strlit("search_placeholder");
    assert("EN"@ != "ES"@) by {
        assert("EN"@[1] != "ES"@[1]);
    }
    assert("cmd_running"@ != "search_placeholder"@) by {
        assert("cmd_running"@.len() != "search_placeholder"@.len());
    }
    assert("cmd_running"@ != "no_results"@) by {
        assert("cmd_running"@.len() != "no_results"@.len());
    }
    assert("cmd_running"@ != "no_files"@) by {
        assert("cmd_running"@.len() != "no_files"@.len());
    }
    assert("cmd_running"@ != "cmd_idle"@) by {
        assert("cmd_running"@.len() != "cmd_idle"@.len());
    }
}

proof fn proof_key_5()
    ensures
        text_is_translated("cmd_success"@),
{
    reveal_strlit("EN");
    reveal_strlit("ES");
    reveal_strlit("Command executed successfully (no output)");
    reveal_strlit("Comando ejecutado con éxito (sin salida)");
    reveal_strlit("cmd_idle");
    reveal_strlit("cmd_running");
    reveal_strlit("cmd_success");
    reveal_strlit("no_files");
    reveal_strlit("no_results");
    reveal_strlit("search_placeholder");
    assert("EN"@ != "ES"@) by {
        assert("EN"@[1] != "ES"@[1]);
    }
    assert("cmd_success"@[4] != "cmd_running"@[4]);
    assert("cmd_success"@ != "search_placeholder"@) by {
        assert("cmd_success"@.len() != "search_placeholder"@.len());
    }
    assert("cmd_success"@ != "no_results"@) by {
        assert("cmd_success"@.len() != "no_results"@.len());
    }
    assert("cmd_success"@ != "no_files"@) by {
        assert("cmd_success"@.len() != "no_files"@.len());
    }
    assert("cmd_success"@ != "cmd_idle"@) by {
        assert("cmd_success"@.len() != "cmd_idle"@.len());
    }
    assert("cmd_success"@ != "cmd_running"@);
}

proof fn proof_key_6()
    ensures
        text_is_translated("cmd_failed"@),
{
    reveal_strlit("EN");
    reveal_strlit("ES");
    reveal_strlit("Command failed (no error output)");
    reveal_strlit("El comando falló (sin salida de error)");
    reveal_strlit("cmd_failed");
    reveal_strlit("cmd_idle");
    reveal_strlit("cmd_running");
    reveal_strlit("cmd_success");
    reveal_strlit("no_files");
    reveal_strlit("no_results");
    reveal_strlit("search_placeholder");
    assert("EN"@ != "ES"@) by {
        assert("EN"@[1] != "ES"@[1]);
    }
    assert("cmd_failed"@[0] != "no_results"@[0]);
    assert("cmd_failed"@ != "search_placeholder"@) by {
        assert("cmd_failed"@.len() != "search_placeholder"@.len());
    }
    assert("cmd_failed"@ != "no_results"@);
    assert("cmd_failed"@ != "no_files"@) by {
        assert("cmd_failed"@.len() != "no_files"@.len());
    }
    assert("cmd_failed"@ != "cmd_idle"@) by {
        assert("cmd_failed"@.len() != "cmd_idle"@.len());
    }
    assert("cmd_failed"@ != "cmd_running"@) by {
        assert("cmd_failed"@.len() != "cmd_running"@.len());
    }
    assert("cmd_failed"@ != "cmd_success"@) by {
        assert("cmd_failed"@.len() != "cmd_success"@.len());
    }
}

proof fn proof_key_7()
    ensures
        text_is_translated("info_tip"@),
{
    reveal_strlit("EN");
    reveal_strlit("ES");
    reveal_strlit("Use Up/Down to navigate. Use Left/Right to change values. Changes auto-saved.");
    reveal_strlit("Usa Arriba/Abajo para navegar. Izquierda/Derecha para cambiar valores. Auto-guardado.");
    reveal_strlit("cmd_failed");
    reveal_strlit("cmd_idle");
    reveal_strlit("cmd_running");
    reveal_strlit("cmd_success");
    reveal_strlit("info_tip");
    reveal_strlit("no_files");
    reveal_strlit("no_results");
    reveal_strlit("search_placeholder");
    assert("EN"@ != "ES"@) by {
        assert("EN"@[1] != "ES"@[1]);
    }
    assert("info_tip"@[0] != "no_files"@[0]);
    assert("info_tip"@[0] != "cmd_idle"@[0]);
    assert("info_tip"@ != "search_placeholder"@) by {
        assert("info_tip"@.len() != "search_placeholder"@.len());
    }
    assert("info_tip"@ != "no_results"@) by {
        assert("info_tip"@.len() != "no_results"@.len());
    }
    assert("info_tip"@ != "no_files"@);
    assert("info_tip"@ != "cmd_idle"@);
    assert("info_tip"@ != "cmd_running"@) by {
        assert("info_tip"@.len() != "cmd_running"@.len());
    }
    assert("info_tip"@ != "cmd_success"@) by {
        assert("info_tip"@.len() != "cmd_success"@.len());
    }
    assert("info_tip"@ != "cmd_failed"@) by {
        assert("info_tip"@.len() != "cmd_failed"@.len());
    }
}

proof fn proof_key_8()
    ensures
        text_is_translated("setting_theme"@),
{
    reveal_strlit("EN");
    reveal_strlit("ES");
    reveal_strlit("Theme");
    reveal_strlit("Tema");
    reveal_strlit("cmd_failed");
    reveal_strlit("cmd_idle");
    reveal_strlit("cmd_running");
    reveal_strlit("cmd_success");
    reveal_strlit("info_tip");
    reveal_strlit("no_files");
    reveal_strlit("no_results");
    reveal_strlit("search_placeholder");
    reveal_strlit("setting_theme");
    assert("EN"@ != "ES"@) by {
        assert("EN"@[1] != "ES"@[1]);
    }
    assert("setting_theme"@ != "search_placeholder"@) by {
        assert("setting_theme"@.len() != "search_placeholder"@.len());
    }
    assert("setting_theme"@ != "no_results"@) by {
        assert("setting_theme"@.len() != "no_results"@.len());
    }
    assert("setting_theme"@ != "no_files"@) by {
        assert("setting_theme"@.len() != "no_files"@.len());
    }
    assert("setting_theme"@ != "cmd_idle"@) by {
        assert("setting_theme"@.len() != "cmd_idle"@.len());
    }
    assert("setting_theme"@ != "cmd_running"@) by {
        assert("setting_theme"@.len() != "cmd_running"@.len());
    }
    assert("setting_theme"@ != "cmd_success"@) by {
        assert("setting_theme"@.len() != "cmd_success"@.len());
    }
    assert("setting_theme"@ != "cmd_failed"@) by {
        assert("setting_theme"@.len() != "cmd_failed"@.len());
    }
    assert("setting_theme"@ != "info_tip"@) by {
        assert("setting_theme"@.len() != "info_tip"@.len());
    }
}

proof fn proof_key_9()
    ensures
        text_is_translated("setting_terminal"@),
{
    reveal_strlit("EN");
    reveal_strlit("ES");
    reveal_strlit("Preferred Terminal");
    reveal_strlit("Terminal Preferida");
    reveal_strlit("cmd_failed");
    reveal_strlit("cmd_idle");
    reveal_strlit("cmd_running");
    reveal_strlit("cmd_success");
    reveal_strlit("info_tip");
    reveal_strlit("no_files");
    reveal_strlit("no_results");
    reveal_strlit("search_placeholder");
    reveal_strlit("setting_terminal");
    reveal_strlit("setting_theme");
    assert("EN"@ != "ES"@) by {
        assert("EN"@[1] != "ES"@[1]);
    }
    assert("Terminal Preferida"@[0] != "Preferred Terminal"@[0]);
    assert("setting_terminal"@ != "search_placeholder"@) by {
        assert("setting_terminal"@.len() != "search_placeholder"@.len());
    }
    assert("setting_terminal"@ != "no_results"@) by {
        assert("setting_terminal"@.len() != "no_results"@.len());
    }
    assert("setting_terminal"@ != "no_files"@) by {
        assert("setting_terminal"@.len() != "no_files"@.len());
    }
    assert("setting_terminal"@ != "cmd_idle"@) by {
        assert("setting_terminal"@.len() != "cmd_idle"@.len());
    }
    assert("setting_terminal"@ != "cmd_running"@) by {
        assert("setting_terminal"@.len() != "cmd_running"@.len());
    }
    assert("setting_terminal"@ != "cmd_success"@) by {
        assert("setting_terminal"@.len() != "cmd_success"@.len());
    }
    assert("setting_terminal"@ != "cmd_failed"@) by {
        assert("setting_terminal"@.len() != "cmd_failed"@.len());
    }
    assert("setting_terminal"@ != "info_tip"@) by {
        assert("setting_terminal"@.len() != "info_tip"@.len());
    }
    assert("setting_terminal"@ != "setting_theme"@) by {
        assert("setting_terminal"@.len() != "setting_theme"@.len());
    }
}

proof fn proof_key_10()
    ensures
        text_is_translated("setting_opacity"@),
{
    reveal_strlit("EN");
    reveal_strlit("ES");
    reveal_strlit("Background Opacity");
    reveal_strlit("Opacidad de Fondo");
    reveal_strlit("cmd_failed");
    reveal_strlit("cmd_idle");
    reveal_strlit("cmd_running");
    reveal_strlit("cmd_success");
    reveal_strlit("info_tip");
    reveal_strlit("no_files");
    reveal_strlit("no_results");
    reveal_strlit("search_placeholder");
    reveal_strlit("setting_opacity");
    reveal_strlit("setting_terminal");
    reveal_strlit("setting_theme");
    assert("EN"@ != "ES"@) by {
        assert("EN"@[1] != "ES"@[1]);
    }
    assert("setting_opacity"@ != "search_placeholder"@) by {
        assert("setting_opacity"@.len() != "search_placeholder"@.len());
    }
    assert("setting_opacity"@ != "no_results"@) by {
        assert("setting_opacity"@.len() != "no_results"@.len());
    }
    assert("setting_opacity"@ != "no_files"@) by {
        assert("setting_opacity"@.len() != "no_files"@.len());
    }
    assert("setting_opacity"@ != "cmd_idle"@) by {
        assert("setting_opacity"@.len() != "cmd_idle"@.len());
    }
    assert("setting_opacity"@ != "cmd_running"@) by {
        assert("setting_opacity"@.len() != "cmd_running"@.len());
    }
    assert("setting_opacity"@ != "cmd_success"@) by {
        assert("setting_opacity"@.len() != "cmd_success"@.len());
    }
    assert("setting_opacity"@ != "cmd_failed"@) by {
        assert("setting_opacity"@.len() != "cmd_failed"@.len());
    }
    assert("setting_opacity"@ != "info_tip"@) by {
        assert("setting_opacity"@.len() != "info_tip"@.len());
    }
    assert("setting_opacity"@ != "setting_theme"@) by {
        assert("setting_opacity"@.len() != "setting_theme"@.len());
    }
    assert("setting_opacity"@ != "setting_terminal"@) by {
        assert("setting_opacity"@.len() != "setting_terminal"@.len());
    }
}

proof fn proof_key_11()
    ensures
        text_is_translated("setting_width"@),
{
    reveal_strlit("EN");
    reveal_strlit("ES");
    reveal_strlit("Window Width");
    reveal_strlit("Ancho de Ventana");
    reveal_strlit("cmd_failed");
    reveal_strlit("cmd_idle");
    reveal_strlit("cmd_running");
    reveal_strlit("cmd_success");
    reveal_strlit("info_tip");
    reveal_strlit("no_files");
    reveal_strlit("no_results");
    reveal_strlit("search_placeholder");
    reveal_strlit("setting_opacity");
    reveal_strlit("setting_terminal");
    reveal_strlit("setting_theme");
    reveal_strlit("setting_width");
    assert("EN"@ != "ES"@) by {
        assert("EN"@[1] != "ES"@[1]);
    }
    assert("setting_width"@[8] != "setting_theme"@[8]);
    assert("setting_width"@ != "search_placeholder"@) by {
        assert("setting_width"@.len() != "search_placeholder"@.len());
    }
    assert("setting_width"@ != "no_results"@) by {
        assert("setting_width"@.len() != "no_results"@.len());
    }
    assert("setting_width"@ != "no_files"@) by {
        assert("setting_width"@.len() != "no_files"@.len());
    }
    assert("setting_width"@ != "cmd_idle"@) by {
        assert("setting_width"@.len() != "cmd_idle"@.len());
    }
    assert("setting_width"@ != "cmd_running"@) by {
        assert("setting_width"@.len() != "cmd_running"@.len());
    }
    assert("setting_width"@ != "cmd_success"@) by {
        assert("setting_width"@.len() != "cmd_success"@.len());
    }
    assert("setting_width"@ != "cmd_failed"@) by {
        assert("setting_width"@.len() != "cmd_failed"@.len());
    }
    assert("setting_width"@ != "info_tip"@) by {
        assert("setting_width"@.len() != "info_tip"@.len());
    }
    assert("setting_width"@ != "setting_theme"@);
    assert("setting_width"@ != "setting_terminal"@) by {
        assert("setting_width"@.len() != "setting_terminal"@.len());
    }
    assert("setting_width"@ != "setting_opacity"@) by {
        assert("setting_width"@.len() != "setting_opacity"@.len());
    }
}

proof fn proof_key_12()
    ensures
        text_is_translated("setting_height"@),
{
    reveal_strlit("EN");
    reveal_strlit("ES");
    reveal_strlit("Window Height");
    reveal_strlit("Alto de Ventana");
    reveal_strlit("cmd_failed");
    reveal_strlit("cmd_idle");
    reveal_strlit("cmd_running");
    reveal_strlit("cmd_success");
    reveal_strlit("info_tip");
    reveal_strlit("no_files");
    reveal_strlit("no_results");
    reveal_strlit("search_placeholder");
    reveal_strlit("setting_height");
    reveal_strlit("setting_opacity");
    reveal_strlit("setting_terminal");
    reveal_strlit("setting_theme");
    reveal_strlit("setting_width");
    assert("EN"@ != "ES"@) by {
        assert("EN"@[1] != "ES"@[1]);
    }
    assert("setting_height"@ != "search_placeholder"@) by {
        assert("setting_height"@.len() != "search_placeholder"@.len());
    }
    assert("setting_height"@ != "no_results"@) by {
        assert("setting_height"@.len() != "no_results"@.len());
    }
    assert("setting_height"@ != "no_files"@) by {
        assert("setting_height"@.len() != "no_files"@.len());
    }
    assert("setting_height"@ != "cmd_idle"@) by {
        assert("setting_height"@.len() != "cmd_idle"@.len());
    }
    assert("setting_height"@ != "cmd_running"@) by {
        assert("setting_height"@.len() != "cmd_running"@.len());
    }
    assert("setting_height"@ != "cmd_success"@) by {
        assert("setting_height"@.len() != "cmd_success"@.len());
    }
    assert("setting_height"@ != "cmd_failed"@) by {
        assert("setting_height"@.len() != "cmd_failed"@.len());
    }
    assert("setting_height"@ != "info_tip"@) by {
        assert("setting_height"@.len() != "info_tip"@.len());
    }
    assert("setting_height"@ != "setting_theme"@) by {
        assert("setting_height"@.len() != "setting_theme"@.len());
    }
    assert("setting_height"@ != "setting_terminal"@) by {
        assert("setting_height"@.len() != "setting_terminal"@.len());
    }
    assert("setting_height"@ != "setting_opacity"@) by {
        assert("setting_height"@.len() != "setting_opacity"@.len());
    }
    assert("setting_height"@ != "setting_width"@) by {
        assert("setting_height"@.len() != "setting_width"@.len());
    }
}

proof fn proof_key_13()
    ensures
        text_is_translated("setting_language"@),
{
    reveal_strlit("EN");
    reveal_strlit("ES");
    reveal_strlit("Language");
    reveal_strlit("Idioma");
    reveal_strlit("cmd_failed");
    reveal_strlit("cmd_idle");
    reveal_strlit("cmd_running");
    reveal_strlit("cmd_success");
    reveal_strlit("info_tip");
    reveal_strlit("no_files");
    reveal_strlit("no_results");
    reveal_strlit("search_placeholder");
    reveal_strlit("setting_height");
    reveal_strlit("setting_language");
    reveal_strlit("setting_opacity");
    reveal_strlit("setting_terminal");
    reveal_strlit("setting_theme");
    reveal_strlit("setting_width");
    assert("EN"@ != "ES"@) by {
        assert("EN"@[1] != "ES"@[1]);
    }
    assert("setting_language"@[8] != "setting_terminal"@[8]);
    assert("setting_language"@ != "search_placeholder"@) by {
        assert("setting_language"@.len() != "search_placeholder"@.len());
    }
    assert("setting_language"@ != "no_results"@) by {
        assert("setting_language"@.len() != "no_results"@.len());
    }
    assert("setting_language"@ != "no_files"@) by {
        assert("setting_language"@.len() != "no_files"@.len());
    }
    assert("setting_language"@ != "cmd_idle"@) by {
        assert("setting_language"@.len() != "cmd_idle"@.len());
    }
    assert("setting_language"@ != "cmd_running"@) by {
        assert("setting_language"@.len() != "cmd_running"@.len());
    }
    assert("setting_language"@ != "cmd_success"@) by {
        assert("setting_language"@.len() != "cmd_success"@.len());
    }
    assert("setting_language"@ != "cmd_failed"@) by {
        assert("setting_language"@.len() != "cmd_failed"@.len());
    }
    assert("setting_language"@ != "info_tip"@) by {
        assert("setting_language"@.len() != "info_tip"@.len());
    }
    assert("setting_language"@ != "setting_theme"@) by {
        assert("setting_language"@.len() != "setting_theme"@.len());
    }
    assert("setting_language"@ != "setting_terminal"@);
    assert("setting_language"@ != "setting_opacity"@) by {
        assert("setting_language"@.len() != "setting_opacity"@.len());
    }
    assert("setting_language"@ != "setting_width"@) by {
        assert("setting_language"@.len() != "setting_width"@.len());
    }
    assert("setting_language"@ != "setting_height"@) by {
        assert("setting_language"@.len() != "setting_height"@.len());
    }
}

proof fn proof_key_14()
    ensures
        text_is_translated("setting_browser"@),
{
    reveal_strlit("EN");
    reveal_strlit("ES");
    reveal_strlit("Preferred Web Browser");
    reveal_strlit("Navegador Web Preferido");
    reveal_strlit("cmd_failed");
    reveal_strlit("cmd_idle");
    reveal_strlit("cmd_running");
    reveal_strlit("cmd_success");
    reveal_strlit("info_tip");
    reveal_strlit("no_files");
    reveal_strlit("no_results");
    reveal_strlit("search_placeholder");
    reveal_strlit("setting_browser");
    reveal_strlit("setting_height");
    reveal_strlit("setting_language");
    reveal_strlit("setting_opacity");
    reveal_strlit("setting_terminal");
    reveal_strlit("setting_theme");
    reveal_strlit("setting_width");
    assert("EN"@ != "ES"@) by {
        assert("EN"@[1] != "ES"@[1]);
    }
    assert("setting_browser"@[8] != "setting_opacity"@[8]);
    assert("setting_browser"@ != "search_placeholder"@) by {
        assert("setting_browser"@.len() != "search_placeholder"@.len());
    }
    assert("setting_browser"@ != "no_results"@) by {
        assert("setting_browser"@.len() != "no_results"@.len());
    }
    assert("setting_browser"@ != "no_files"@) by {
        assert("setting_browser"@.len() != "no_files"@.len());
    }
    assert("setting_browser"@ != "cmd_idle"@) by {
        assert("setting_browser"@.len() != "cmd_idle"@.len());
    }
    assert("setting_browser"@ != "cmd_running"@) by {
        assert("setting_browser"@.len() != "cmd_running"@.len());
    }
    assert("setting_browser"@ != "cmd_success"@) by {
        assert("setting_browser"@.len() != "cmd_success"@.len());
    }
    assert("setting_browser"@ != "cmd_failed"@) by {
        assert("setting_browser"@.len() != "cmd_failed"@.len());
    }
    assert("setting_browser"@ != "info_tip"@) by {
        assert("setting_browser"@.len() != "info_tip"@.len());
    }
    assert("setting_browser"@ != "setting_theme"@) by {
        assert("setting_browser"@.len() != "setting_theme"@.len());
    }
    assert("setting_browser"@ != "setting_terminal"@) by {
        assert("setting_browser"@.len() != "setting_terminal"@.len());
    }
    assert("setting_browser"@ != "setting_opacity"@);
    assert("setting_browser"@ != "setting_width"@) by {
        assert("setting_browser"@.len() != "setting_width"@.len());
    }
    assert("setting_browser"@ != "setting_height"@) by {
        assert("setting_browser"@.len() != "setting_height"@.len());
    }
    assert("setting_browser"@ != "setting_language"@) by {
        assert("setting_browser"@.len() != "setting_language"@.len());
    }
}

proof fn proof_key_15()
    ensures
        text_is_translated("launch_tag"@),
{
    reveal_strlit("EN");
    reveal_strlit("ES");
    reveal_strlit("⏎ Launch");
    reveal_strlit("⏎ Lanzar");
    reveal_strlit("cmd_failed");
    reveal_strlit("cmd_idle");
    reveal_strlit("cmd_running");
    reveal_strlit("cmd_success");
    reveal_strlit("info_tip");
    reveal_strlit("launch_tag");
    reveal_strlit("no_files");
    reveal_strlit("no_results");
    reveal_strlit("search_placeholder");
    reveal_strlit("setting_browser");
    reveal_strlit("setting_height");
    reveal_strlit("setting_language");
    reveal_strlit("setting_opacity");
    reveal_strlit("setting_terminal");
    reveal_strlit("setting_theme");
    reveal_strlit("setting_width");
    assert("EN"@ != "ES"@) by {
        assert("EN"@[1] != "ES"@[1]);
    }
    assert("launch_tag"@[0] != "no_results"@[0]);
    assert("launch_tag"@[0] != "cmd_failed"@[0]);
    assert("⏎ Lanzar"@[4] != "⏎ Launch"@[4]);
    assert("launch_tag"@ != "search_placeholder"@) by {
        assert("launch_tag"@.len() != "search_placeholder"@.len());
    }
    assert("launch_tag"@ != "no_results"@);
    assert("launch_tag"@ != "no_files"@) by {
        assert("launch_tag"@.len() != "no_files"@.len());
    }
    assert("launch_tag"@ != "cmd_idle"@) by {
        assert("launch_tag"@.len() != "cmd_idle"@.len());
    }
    assert("launch_tag"@ != "cmd_running"@) by {
        assert("launch_tag"@.len() != "cmd_running"@.len());
    }
    assert("launch_tag"@ != "cmd_success"@) by {
        assert("launch_tag"@.len() != "cmd_success"@.len());
    }
    assert("launch_tag"@ != "cmd_failed"@);
    assert("launch_tag"@ != "info_tip"@) by {
        assert("launch_tag"@.len() != "info_tip"@.len());
    }
    assert("launch_tag"@ != "setting_theme"@) by {
        assert("launch_tag"@.len() != "setting_theme"@.len());
    }
    assert("launch_tag"@ != "setting_terminal"@) by {
        assert("launch_tag"@.len() != "setting_terminal"@.len());
    }
    assert("launch_tag"@ != "setting_opacity"@) by {
        assert("launch_tag"@.len() != "setting_opacity"@.len());
    }
    assert("launch_tag"@ != "setting_width"@) by {
        assert("launch_tag"@.len() != "setting_width"@.len());
    }
    assert("launch_tag"@ != "setting_height"@) by {
        assert("launch_tag"@.len() != "setting_height"@.len());
    }
    assert("launch_tag"@ != "setting_language"@) by {
        assert("launch_tag"@.len() != "setting_language"@.len());
    }
    assert("launch_tag"@ != "setting_browser"@) by {
        assert("launch_tag"@.len() != "setting_browser"@.len());
    }
}

/// Law: both language tables give every key a text of its own: not empty, not the key
/// itself, and different in Spanish and in English.
pub proof fn law_translations_cover_keys()
    ensures
        forall|i: int| 0 <= i < translation_keys().len() ==> text_is_translated(#[trigger] translation_keys()[i]),
{
    assert forall|i: int| 0 <= i < translation_keys().len() implies text_is_translated(#[trigger] translation_keys()[i]) by {
        if i == 0 { proof_key_0(); }
        if i == 1 { proof_key_1(); }
        if i == 2 { proof_key_2(); }
        if i == 3 { proof_key_3(); }
        if i == 4 { proof_key_4(); }
        if i == 5 { proof_key_5(); }
        if i == 6 { proof_key_6(); }
        if i == 7 { proof_key_7(); }
        if i == 8 { proof_key_8(); }
        if i == 9 { proof_key_9(); }
        if i == 10 { proof_key_10(); }
        if i == 11 { proof_key_11(); }
        if i == 12 { proof_key_12(); }
        if i == 13 { proof_key_13(); }
        if i == 14 { proof_key_14(); }
        if i == 15 { proof_key_15(); }
    }
}

} // verus!
