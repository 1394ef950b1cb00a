//! Localisation: Turkish and English dictionaries (TOML tables of strings),
//! lookup with a Turkish fallback, placeholder filling, and the helpers that turn
//! stored status, throttling, power-profile and GPU-mode texts into the words of
//! the current language.
use vstd::prelude::*;
use crate::models::{gpu_mode_of, GpuMode};
use crate::text::{
    chars_of, contains, contains_str, eq_ignore_ascii_case, eq_ignore_ascii_case_str, eq_str,
    index_of, index_of_str, lowercase, push_str, str_is, string_of, to_lowercase, trim, trim_chars,
};

verus! {

/// The Turkish dictionary.
pub const TR_DICTIONARY: &'static str = "\
ready = \"Hazır\"
none = \"Yok\"
unknown = \"Bilinmiyor\"
detected = \"Tespit Edildi\"
throttling_thermal = \"Termal Kısma\"
throttling_power = \"Güç Limiti\"
throttling_hardware = \"Donanım Kısması\"
profile_performance = \"Performans\"
profile_balanced = \"Dengeli\"
profile_power_saver = \"Güç Tasarrufu\"
methodology_badge = \"METODOLOJİ\"
status_completed = \"TAMAMLANDI\"
status_error = \"HATA\"
status_cancelled = \"İPTAL\"
status_running = \"ÇALIŞIYOR\"
status_timeout = \"ZAMAN AŞIMI\"
gpu_mode = \"GPU Modu\"
gpu_mode_default = \"Sistem Varsayılanı\"
gpu_mode_nvidia = \"Harici GPU (NVIDIA)\"
gpu_mode_igpu = \"Dahili GPU (iGPU)\"
gpu_mode_mixed = \"Karma\"
loading = \"Yükleniyor...\"
calculating = \"Hesaplanıyor...\"
status_test_completed_score = \"Test tamamlandı. Skor: {}\"
status_installing = \"{} kuruluyor...\"
status_install_success = \"{} başarıyla kuruldu.\"
status_install_error = \"{} kurulamadı: {}\"
status_uninstall_success = \"{} kaldırıldı.\"
status_uninstall_error = \"{} kaldırılamadı: {}\"
status_lang_changed = \"Dil değiştirildi.\"
csv_header = \"ID,Test,Sürüm,Kategori,Skor,Birim,Süre (sn),Tarih,Durum,GPU Modu,Grup\"
bench_7zip_name = \"7-Zip\"
bench_7zip_desc = \"Sıkıştırma ve açma hızını ölçer.\"
bench_cray_name = \"C-Ray\"
bench_cray_desc = \"Işın izleme ile işlemci hızını ölçer.\"
bench_geekbench_name = \"Geekbench\"
bench_geekbench_desc = \"İşlemci ve hesaplama performansını ölçer.\"
bench_unigine_name = \"Unigine\"
bench_unigine_desc = \"Grafik performansını ölçer.\"
bench_unigine_heaven_name = \"Unigine Heaven\"
bench_unigine_heaven_desc = \"Tesselasyon ağırlıklı grafik testi.\"
bench_unigine_superposition_name = \"Unigine Superposition\"
bench_unigine_superposition_desc = \"Yüksek yükte grafik testi.\"
bench_ffmpeg_name = \"FFmpeg\"
bench_ffmpeg_desc = \"Video kodlama hızını ölçer.\"
bench_blender_name = \"Blender\"
bench_blender_desc = \"Render hızını ölçer.\"
bench_llama_bench_name = \"llama-bench\"
bench_llama_bench_desc = \"Dil modeli çıkarım hızını ölçer.\"
bench_gravitymark_name = \"GravityMark\"
bench_gravitymark_desc = \"Çok sayıda nesneyle grafik testi.\"
bench_fio_name = \"fio\"
bench_fio_desc = \"Disk okuma ve yazma hızını ölçer.\"
bench_stream_name = \"STREAM\"
bench_stream_desc = \"Bellek bant genişliğini ölçer.\"
bench_ycruncher_name = \"y-cruncher\"
bench_ycruncher_desc = \"Pi hesaplayarak işlemci ve belleği zorlar.\"
cat_render_full = \"Render\"
cat_system_full = \"Sistem\"
cat_gpu_full = \"Grafik (GPU)\"
cat_cpu_full = \"İşlemci (CPU)\"
cat_ai_full = \"Yapay Zeka (LLM)\"
cat_ram_full = \"Bellek (RAM)\"
cat_disk_full = \"Depolama (Disk)\"
cat_all = \"Kategori: Tümü\"
gpu_filter_all = \"GPU: Tümü\"
status_all = \"Durum: Tümü\"
group_filter_all = \"Tüm Gruplar\"
group_filter_ungrouped = \"Grupsuz\"
avg_prefix = \"Ort:\"
peak_prefix = \"Maks:\"
ac_power_row = \"Sistem Gücü (AC)\"
bench_settings_array_size = \"Dizi Boyutu\"
bench_settings_cray_res_desc = \"Işın izleme görüntüsünün çözünürlüğü.\"
bench_settings_cray_resolution = \"Çözünürlük\"
bench_settings_desc = \"Bu testin çalıştırma ayarlarını seçin.\"
bench_settings_dict_32mb = \"32MB (Varsayılan)\"
bench_settings_dur_20s = \"20s (Varsayılan)\"
bench_settings_dur_unlimited = \"Sınırsız\"
bench_settings_fio_desc = \"Disk testinin okuma/yazma deseni.\"
bench_settings_graphics_api = \"Grafik API\"
bench_settings_gravitymark_desc = \"Testin kullanacağı grafik arayüzü.\"
bench_settings_llama_desc = \"Çıkarım için kullanılacak model.\"
bench_settings_model = \"Model\"
bench_settings_problem_size = \"Problem Boyutu\"
bench_settings_source_bunny = \"Big Buck Bunny (Varsayılan)\"
bench_settings_source_synthetic = \"Sentetik Kaynak\"
bench_settings_source_tears = \"Tears of Steel\"
bench_settings_stream_desc = \"Bellek bant genişliği testinin dizi boyutu.\"
bench_settings_title_format = \"{} Ayarları\"
bench_settings_workload = \"İş Yükü\"
bench_settings_ycruncher_desc = \"Hesaplanacak basamak sayısı.\"
cat_cpu = \"İşlemci (CPU)\"
cat_gpu = \"Grafik (GPU)\"
cpu_freq_row = \"CPU Frekansı (Ort / Maks)\"
cpu_metrics_group = \"İşlemci (CPU)\"
cpu_power_row = \"CPU Gücü\"
cpu_temp_row = \"CPU Sıcaklığı (Ort / Maks)\"
cpu_throttling_row = \"CPU Kısma\"
cpu_usage_row = \"CPU Kullanımı\"
dialog_clean_runners_category = \"Sistem\"
dialog_clean_runners_confirm = \"Tümünü Temizle\"
dialog_clean_runners_desc = \"Kurulu tüm testler ve dosyaları silinecek. Bu işlem geri alınamaz.\"
dialog_clean_runners_name = \"Tüm Kurulu Testler\"
dialog_clean_runners_title = \"Kurulumları Temizle\"
dialog_clear_history_category = \"Geçmiş\"
dialog_clear_history_confirm = \"Geçmişi Sil\"
dialog_clear_history_desc = \"Tüm test kayıtları ve telemetri verileri silinecek. Bu işlem geri alınamaz.\"
dialog_clear_history_name = \"Tüm Test Geçmişi\"
dialog_clear_history_size = \"Tüm kayıtlar\"
dialog_clear_history_title = \"Geçmişi Temizle\"
dialog_uninstall_confirm = \"Kaldır\"
dialog_uninstall_desc = \"Bu testin dosyaları silinecek.\"
duration_row = \"Süre\"
error_history_load = \"Geçmiş yüklenemedi: {}\"
error_pixmap_alloc = \"Görüntü belleği ayrılamadı\"
error_png_save = \"PNG kaydedilemedi: {}\"
error_svg_parse = \"SVG okunamadı: {}\"
error_target_dir = \"Hedef dizin oluşturulamadı: {}\"
export_svg_footer = \"BenchHub ile oluşturuldu\"
export_svg_header_subtitle = \"Oluşturulma: {}\"
export_svg_header_title = \"BenchHub - Test Karşılaştırma Raporu\"
export_svg_score_prefix = \"Skor\"
file = \"Dosya\"
gpu_filter_default = \"Sistem Varsayılanı\"
gpu_filter_igpu = \"Dahili GPU\"
gpu_filter_nvidia = \"Harici GPU (NVIDIA)\"
gpu_freq_row = \"GPU Frekansı (Ort / Maks)\"
gpu_metrics_group = \"Grafik (GPU)\"
gpu_power_row = \"GPU Gücü\"
gpu_temp_row = \"GPU Sıcaklığı (Ort / Maks)\"
gpu_throttling_row = \"GPU Kısma\"
gpu_usage_row = \"GPU Kullanımı\"
group_created_success = \"{} test '{}' grubuna eklendi\"
group_deleted_success = \"'{}' grubu silindi\"
interval_1000 = \"1 sn\"
interval_2000 = \"2 sn\"
interval_250 = \"250 ms\"
interval_500 = \"500 ms\"
limit_150 = \"150 satır\"
limit_300 = \"300 satır\"
limit_500 = \"500 satır\"
limit_80 = \"80 satır\"
log_error_prefix = \"HATA\"
log_file_empty = \"Kayıt dosyası boş.\"
log_file_read_error = \"Kayıt dosyası okunamadı:\"
memory_metrics_group = \"Bellek\"
methodology_created_success = \"{} testten metodoloji oluşturuldu\"
no_log_file_found = \"Bu test için kayıt dosyası bulunamadı.\"
other_metrics_group = \"Diğer\"
power_profile_row = \"Güç Profili\"
queue_completed = \"Sıradaki tüm testler tamamlandı.\"
queue_no_installed = \"Sırada kurulu test yok.\"
queue_running_fmt = \"Sıra {}/{}: {} çalıştırılıyor\"
ram_row = \"RAM\"
runs_ungrouped_success = \"Testler gruptan çıkarıldı\"
save_stopped_no = \"Hayır\"
save_stopped_yes = \"Evet\"
scanning_sensors = \"Sensörler taranıyor...\"
sort_date_asc = \"Tarih (Eski)\"
sort_date_desc = \"Tarih (Yeni)\"
sort_duration_asc = \"Süre (Kısa)\"
sort_score_asc = \"Skor (Düşük)\"
sort_score_desc = \"Skor (Yüksek)\"
status_all_runners_cleaned = \"Tüm kurulumlar temizlendi\"
status_bench_settings_reset = \"{} ayarları sıfırlandı\"
status_bench_settings_saved = \"{} ayarları kaydedildi\"
status_csv_export_error = \"CSV dışa aktarılamadı: {}\"
status_csv_export_success = \"CSV dışa aktarıldı: {}\"
status_error_no_runs_to_compare = \"Karşılaştırılacak test yok\"
status_error_no_selection = \"Önce test seçin\"
status_gpu_mode = \"GPU modu: {}\"
status_history_cleared = \"Geçmiş temizlendi\"
status_install_success_log = \"Kurulum tamamlandı\"
status_installing_log = \"Kuruluyor\"
status_max_duration_set = \"Maksimum test süresi\"
status_max_duration_unlimited = \"Maksimum test süresi: Sınırsız\"
status_save_stopped_off = \"Durdurulan testler kaydedilmeyecek\"
status_save_stopped_on = \"Durdurulan testler kaydedilecek\"
status_stopping_test = \"Test durduruluyor...\"
status_svg_export_error = \"SVG dışa aktarılamadı: {}\"
status_svg_export_success = \"SVG dışa aktarıldı: {}\"
status_telemetry_interval = \"Telemetri aralığı: {} ms\"
status_terminal_limit = \"Terminal sınırı: {} satır\"
status_test_completed_no_score = \"Test bitti, skor alınamadı ({})\"
status_test_record_deleted = \"Test kaydı silindi\"
status_test_stopped_not_recorded = \"Test durduruldu, kaydedilmedi\"
status_test_stopped_recorded = \"Test durduruldu ve kaydedildi\"
system_info_row = \"Sistem\"
test_parameters = \"Test Parametreleri\"
tests_compared = \"Test Karşılaştırılıyor\"
uninstall = \"Kaldır\"
vram_freq_row = \"VRAM Frekansı (Ort / Maks)\"
vram_row = \"VRAM\"
warn_different_categories = \"Uyarı: farklı kategoriden test seçildi ({})\"
";

/// The English dictionary.
pub const EN_DICTIONARY: &'static str = "\
ready = \"Ready\"
none = \"None\"
unknown = \"Unknown\"
detected = \"Detected\"
throttling_thermal = \"Thermal Throttling\"
throttling_power = \"Power Limit\"
throttling_hardware = \"Hardware Throttling\"
profile_performance = \"Performance\"
profile_balanced = \"Balanced\"
profile_power_saver = \"Power Saver\"
methodology_badge = \"METHODOLOGY\"
status_completed = \"COMPLETED\"
status_error = \"ERROR\"
status_cancelled = \"CANCELLED\"
status_running = \"RUNNING\"
status_timeout = \"TIMEOUT\"
gpu_mode = \"GPU Mode\"
gpu_mode_default = \"System Default\"
gpu_mode_nvidia = \"Dedicated GPU NVIDIA\"
gpu_mode_igpu = \"Integrated GPU\"
gpu_mode_mixed = \"Mixed\"
loading = \"Loading...\"
calculating = \"Calculating...\"
status_test_completed_score = \"Test completed. Score: {}\"
status_installing = \"Installing {}...\"
status_install_success = \"{} installed successfully.\"
status_install_error = \"Failed to install {}: {}\"
status_uninstall_success = \"{} uninstalled.\"
status_uninstall_error = \"Failed to uninstall {}: {}\"
status_lang_changed = \"Language changed.\"
csv_header = \"ID,Test,Version,Category,Score,Unit,Duration (s),Date,Status,GPU Mode,Group\"
bench_7zip_name = \"7-Zip\"
bench_7zip_desc = \"Measures compression and decompression speed.\"
bench_cray_name = \"C-Ray\"
bench_cray_desc = \"Measures CPU speed with ray tracing.\"
bench_geekbench_name = \"Geekbench\"
bench_geekbench_desc = \"Measures CPU and compute performance.\"
bench_unigine_name = \"Unigine\"
bench_unigine_desc = \"Measures graphics performance.\"
bench_unigine_heaven_name = \"Unigine Heaven\"
bench_unigine_heaven_desc = \"Tessellation-heavy graphics test.\"
bench_unigine_superposition_name = \"Unigine Superposition\"
bench_unigine_superposition_desc = \"Graphics test under heavy load.\"
bench_ffmpeg_name = \"FFmpeg\"
bench_ffmpeg_desc = \"Measures video encoding speed.\"
bench_blender_name = \"Blender\"
bench_blender_desc = \"Measures rendering speed.\"
bench_llama_bench_name = \"llama-bench\"
bench_llama_bench_desc = \"Measures language model inference speed.\"
bench_gravitymark_name = \"GravityMark\"
bench_gravitymark_desc = \"Graphics test with many objects.\"
bench_fio_name = \"fio\"
bench_fio_desc = \"Measures disk read and write speed.\"
bench_stream_name = \"STREAM\"
bench_stream_desc = \"Measures memory bandwidth.\"
bench_ycruncher_name = \"y-cruncher\"
bench_ycruncher_desc = \"Stresses CPU and memory by computing pi.\"
cat_render_full = \"Render\"
cat_system_full = \"System\"
cat_gpu_full = \"Graphics (GPU)\"
cat_cpu_full = \"Processor (CPU)\"
cat_ai_full = \"AI (LLM)\"
cat_ram_full = \"Memory (RAM)\"
cat_disk_full = \"Storage (Disk)\"
cat_all = \"Category: All\"
gpu_filter_all = \"GPU: All\"
status_all = \"Status: All\"
group_filter_all = \"All Groups\"
group_filter_ungrouped = \"Ungrouped\"
avg_prefix = \"Avg:\"
peak_prefix = \"Peak:\"
ac_power_row = \"System Power (AC)\"
bench_settings_array_size = \"Array Size\"
bench_settings_cray_res_desc = \"Resolution of the ray-traced image.\"
bench_settings_cray_resolution = \"Resolution\"
bench_settings_desc = \"Choose how this benchmark is run.\"
bench_settings_dict_32mb = \"32MB (Default)\"
bench_settings_dur_20s = \"20s (Default)\"
bench_settings_dur_unlimited = \"Unlimited\"
bench_settings_fio_desc = \"Read/write pattern of the disk test.\"
bench_settings_graphics_api = \"Graphics API\"
bench_settings_gravitymark_desc = \"Graphics interface the test uses.\"
bench_settings_llama_desc = \"Model used for inference.\"
bench_settings_model = \"Model\"
bench_settings_problem_size = \"Problem Size\"
bench_settings_source_bunny = \"Big Buck Bunny (Default)\"
bench_settings_source_synthetic = \"Synthetic Source\"
bench_settings_source_tears = \"Tears of Steel\"
bench_settings_stream_desc = \"Array size of the memory bandwidth test.\"
bench_settings_title_format = \"{} Settings\"
bench_settings_workload = \"Workload\"
bench_settings_ycruncher_desc = \"Number of digits to compute.\"
cat_cpu = \"Processor (CPU)\"
cat_gpu = \"Graphics (GPU)\"
cpu_freq_row = \"CPU Frequency (Avg / Peak)\"
cpu_metrics_group = \"Processor (CPU)\"
cpu_power_row = \"CPU Power\"
cpu_temp_row = \"CPU Temperature (Avg / Peak)\"
cpu_throttling_row = \"CPU Throttling\"
cpu_usage_row = \"CPU Usage\"
dialog_clean_runners_category = \"System\"
dialog_clean_runners_confirm = \"Clean All\"
dialog_clean_runners_desc = \"All installed benchmarks and their files will be removed. This cannot be undone.\"
dialog_clean_runners_name = \"All Installed Benchmarks\"
dialog_clean_runners_title = \"Clean Installations\"
dialog_clear_history_category = \"History\"
dialog_clear_history_confirm = \"Clear History\"
dialog_clear_history_desc = \"All test records and telemetry data will be removed. This cannot be undone.\"
dialog_clear_history_name = \"All Test History\"
dialog_clear_history_size = \"All records\"
dialog_clear_history_title = \"Clear History\"
dialog_uninstall_confirm = \"Uninstall\"
dialog_uninstall_desc = \"The files of this benchmark will be removed.\"
duration_row = \"Duration\"
error_history_load = \"Failed to load history: {}\"
error_pixmap_alloc = \"Failed to allocate the image buffer\"
error_png_save = \"Failed to save PNG: {}\"
error_svg_parse = \"Failed to parse SVG: {}\"
error_target_dir = \"Failed to create the target directory: {}\"
export_svg_footer = \"Generated by BenchHub\"
export_svg_header_subtitle = \"Generated: {}\"
export_svg_header_title = \"BenchHub - Test Comparison Report\"
export_svg_score_prefix = \"Score\"
file = \"File\"
gpu_filter_default = \"System Default\"
gpu_filter_igpu = \"Integrated GPU\"
gpu_filter_nvidia = \"Dedicated GPU (NVIDIA)\"
gpu_freq_row = \"GPU Frequency (Avg / Peak)\"
gpu_metrics_group = \"Graphics (GPU)\"
gpu_power_row = \"GPU Power\"
gpu_temp_row = \"GPU Temperature (Avg / Peak)\"
gpu_throttling_row = \"GPU Throttling\"
gpu_usage_row = \"GPU Usage\"
group_created_success = \"{} tests added to group '{}'\"
group_deleted_success = \"Group '{}' deleted\"
interval_1000 = \"1 s\"
interval_2000 = \"2 s\"
interval_250 = \"250 ms\"
interval_500 = \"500 ms\"
limit_150 = \"150 lines\"
limit_300 = \"300 lines\"
limit_500 = \"500 lines\"
limit_80 = \"80 lines\"
log_error_prefix = \"ERROR\"
log_file_empty = \"The log file is empty.\"
log_file_read_error = \"Failed to read the log file:\"
memory_metrics_group = \"Memory\"
methodology_created_success = \"Methodology created from {} tests\"
no_log_file_found = \"No log file was found for this test.\"
other_metrics_group = \"Other\"
power_profile_row = \"Power Profile\"
queue_completed = \"All queued tests completed.\"
queue_no_installed = \"No installed benchmark in the queue.\"
queue_running_fmt = \"Queue {}/{}: running {}\"
ram_row = \"RAM\"
runs_ungrouped_success = \"Tests removed from their group\"
save_stopped_no = \"No\"
save_stopped_yes = \"Yes\"
scanning_sensors = \"Scanning sensors...\"
sort_date_asc = \"Date (Oldest)\"
sort_date_desc = \"Date (Newest)\"
sort_duration_asc = \"Duration (Shortest)\"
sort_score_asc = \"Score (Lowest)\"
sort_score_desc = \"Score (Highest)\"
status_all_runners_cleaned = \"All installations cleaned\"
status_bench_settings_reset = \"{} settings reset\"
status_bench_settings_saved = \"{} settings saved\"
status_csv_export_error = \"CSV export failed: {}\"
status_csv_export_success = \"CSV exported: {}\"
status_error_no_runs_to_compare = \"No tests to compare\"
status_error_no_selection = \"Select tests first\"
status_gpu_mode = \"GPU mode: {}\"
status_history_cleared = \"History cleared\"
status_install_success_log = \"Installation completed\"
status_installing_log = \"Installing\"
status_max_duration_set = \"Maximum test duration\"
status_max_duration_unlimited = \"Maximum test duration: Unlimited\"
status_save_stopped_off = \"Stopped tests will not be saved\"
status_save_stopped_on = \"Stopped tests will be saved\"
status_stopping_test = \"Stopping test...\"
status_svg_export_error = \"SVG export failed: {}\"
status_svg_export_success = \"SVG exported: {}\"
status_telemetry_interval = \"Telemetry interval: {} ms\"
status_terminal_limit = \"Terminal limit: {} lines\"
status_test_completed_no_score = \"Test finished without a score ({})\"
status_test_record_deleted = \"Test record deleted\"
status_test_stopped_not_recorded = \"Test stopped and not saved\"
status_test_stopped_recorded = \"Test stopped and saved\"
system_info_row = \"System\"
test_parameters = \"Test Parameters\"
tests_compared = \"Tests Being Compared\"
uninstall = \"Uninstall\"
vram_freq_row = \"VRAM Frequency (Avg / Peak)\"
vram_row = \"VRAM\"
warn_different_categories = \"Warning: a test from another category was selected ({})\"
";

// ---------------------------------------------------------------------------
// Dictionaries
// ---------------------------------------------------------------------------

/// What `toml::from_str` makes of `text` read as a table from strings to strings:
/// its entries in key order, or `None` when the text is not such a table.
pub uninterp spec fn toml_string_table(text: Seq<char>) -> Option<Seq<(Seq<char>, Seq<char>)>>;

/// The entries of a dictionary as pairs of character sequences.
pub open spec fn entries_view(v: Seq<(String, String)>) -> Seq<(Seq<char>, Seq<char>)> {
    v.map_values(|e: (String, String)| (e.0@, e.1@))
}

/// `toml::from_str` into a `BTreeMap<String, String>`, whose entries are handed
/// out in key order. Claimed: the entries are the named parse of `text`, and
/// `None` comes exactly when that parse fails.
#[verifier::external_body]
fn parse_string_table(text: &str) -> (r: Option<Vec<(String, String)>>)
    ensures
        match r {
            Some(v) => toml_string_table(text@) == Some(entries_view(v@)),
            None => toml_string_table(text@) is None,
        },
{
    match toml::from_str::<std::collections::BTreeMap<String, String>>(text) {
        Ok(m) => Some(m.into_iter().collect()),
        Err(_) => None,
    }
}

/// The value of the first entry whose key is `key`.
pub open spec fn lookup(table: Seq<(Seq<char>, Seq<char>)>, key: Seq<char>) -> Option<Seq<char>>
    decreases table.len(),
{
    if table.len() == 0 {
        None
    } else if table[0].0 == key {
        Some(table[0].1)
    } else {
        lookup(table.drop_first(), key)
    }
}

/// The text for `key`: from the dictionary of `lang`, else from the Turkish one,
/// else the key itself.
pub open spec fn translate(
    tr: Seq<(Seq<char>, Seq<char>)>,
    en: Seq<(Seq<char>, Seq<char>)>,
    lang: Language,
    key: Seq<char>,
) -> Seq<char> {
    let dict = if lang == Language::En {
        en
    } else {
        tr
    };
    match lookup(dict, key) {
        Some(v) => v,
        None => match lookup(tr, key) {
            Some(v) => v,
            None => key,
        },
    }
}

fn lookup_in(table: &Vec<(String, String)>, key: &str) -> (r: Option<String>)
    ensures
        crate::text::opt_view(r) == lookup(entries_view(table@), key@),
{
    let ghost t = entries_view(table@);
    let mut i: usize = 0;
    assert(t.skip(0) =~= t);
    while i < table.len()
        invariant
            t == entries_view(table@),
            i <= table@.len(),
            lookup(t, key@) == lookup(t.skip(i as int), key@),
        decreases table@.len() - i,
    {
        assert(t.skip(i as int).drop_first() =~= t.skip(i + 1));
        assert(t.skip(i as int)[0] == (table@[i as int].0@, table@[i as int].1@));
        if str_is(table[i].0.as_str(), key) {
            return Some(table[i].1.clone());
        }
        i += 1;
    }
    assert(t.skip(i as int).len() == 0);
    None
}

// ---------------------------------------------------------------------------
// Languages
// ---------------------------------------------------------------------------

/// A language of the user interface.
#[derive(Clone, Copy, Debug, PartialEq, Eq, Structural)]
pub enum Language {
    Tr,
    En,
}

/// The language that a setting names: English for "en" or "english" in any case,
/// Turkish otherwise.
pub open spec fn language_of(lang: Seq<char>) -> Language {
    if lowercase(lang) == "en"@ || lowercase(lang) == "english"@ {
        Language::En
    } else {
        Language::Tr
    }
}

/// The code of a language.
pub open spec fn language_code(lang: Language) -> Seq<char> {
    match lang {
        Language::En => "en"@,
        Language::Tr => "tr"@,
    }
}

/// Normalises a language setting to "en" or "tr".
pub fn normalize_lang(lang: &str) -> (r: &'static str)
    ensures
        r@ == language_code(language_of(lang@)),
{
    let lower = to_lowercase(lang);
    if str_is(lower.as_str(), "en") || str_is(lower.as_str(), "english") {
        "en"
    } else {
        "tr"
    }
}

fn language_from(lang: &str) -> (r: Language)
    ensures
        r == language_of(lang@),
        lang@ == language_code(Language::En) ==> r == Language::En,
        lang@ == language_code(Language::Tr) ==> r == Language::Tr,
{
    let lower = to_lowercase(lang);
    proof {
        reveal_strlit("en");
        reveal_strlit("tr");
        reveal_strlit("english");
        if lang@ == "en"@ || lang@ == "tr"@ {
            assert(lower@ =~= lang@);
        }
        if lang@ == "tr"@ {
            assert(lower@[0] != "en"@[0]);
            assert(lower@.len() != "english"@.len());
        }
    }
    if str_is(lower.as_str(), "en") || str_is(lower.as_str(), "english") {
        Language::En
    } else {
        Language::Tr
    }
}

/// The dictionaries and the current language.
pub struct I18n {
    lang: Language,
    tr: Vec<(String, String)>,
    en: Vec<(String, String)>,
}

impl I18n {
    /// The current language.
    pub closed spec fn language(&self) -> Language {
        self.lang
    }

    /// Whether the current language is English.
    pub fn is_english(&self) -> (r: bool)
        ensures
            r == (self.language() == Language::En),
    {
        match self.lang {
            Language::En => true,
            Language::Tr => false,
        }
    }

    /// The Turkish dictionary's entries.
    pub closed spec fn tr_table(&self) -> Seq<(Seq<char>, Seq<char>)> {
        entries_view(self.tr@)
    }

    /// The English dictionary's entries.
    pub closed spec fn en_table(&self) -> Seq<(Seq<char>, Seq<char>)> {
        entries_view(self.en@)
    }

    /// The text for `key` in the current language.
    pub open spec fn text_for(&self, key: Seq<char>) -> Seq<char> {
        translate(self.tr_table(), self.en_table(), self.language(), key)
    }

    /// Parses both dictionaries; the language starts as Turkish. `None` when a
    /// dictionary is not a table of strings.
    pub fn load() -> (r: Option<I18n>)
        ensures
            r is Some <==> (toml_string_table(TR_DICTIONARY@) is Some && toml_string_table(
                EN_DICTIONARY@,
            ) is Some),
            r matches Some(i) ==> {
                &&& i.language() == Language::Tr
                &&& Some(i.tr_table()) == toml_string_table(TR_DICTIONARY@)
                &&& Some(i.en_table()) == toml_string_table(EN_DICTIONARY@)
            },
    {
        let tr = parse_string_table(TR_DICTIONARY);
        let en = parse_string_table(EN_DICTIONARY);
        match (tr, en) {
            (Some(tr), Some(en)) => Some(I18n { lang: Language::Tr, tr, en }),
            _ => None,
        }
    }
}

/// Switches the current language to the one `lang` names.
pub fn set_language(i18n: &mut I18n, lang: &str)
    ensures
        final(i18n).language() == language_of(lang@),
        lang@ == language_code(Language::En) ==> final(i18n).language() == Language::En,
        lang@ == language_code(Language::Tr) ==> final(i18n).language() == Language::Tr,
        final(i18n).tr_table() == old(i18n).tr_table(),
        final(i18n).en_table() == old(i18n).en_table(),
{
    i18n.lang = language_from(lang);
}

/// The code of the current language.
pub fn get_language(i18n: &I18n) -> (r: String)
    ensures
        r@ == language_code(i18n.language()),
{
    match i18n.lang {
        Language::En => String::from_str("en"),
        Language::Tr => String::from_str("tr"),
    }
}

fn translate_in(i18n: &I18n, key: &str, lang: Language) -> (r: String)
    ensures
        r@ == translate(i18n.tr_table(), i18n.en_table(), lang, key@),
{
    let dict = match lang {
        Language::En => &i18n.en,
        Language::Tr => &i18n.tr,
    };
    match lookup_in(dict, key) {
        Some(v) => v,
        None => match lookup_in(&i18n.tr, key) {
            Some(v) => v,
            None => String::from_str(key),
        },
    }
}

/// The text for `key` in the current language, falling back to Turkish and then
/// to the key itself.
pub fn t(i18n: &I18n, key: &str) -> (r: String)
    ensures
        r@ == i18n.text_for(key@),
{
    translate_in(i18n, key, i18n.lang)
}

/// The text for `key` in the language that `lang` names, with the same fallbacks.
pub fn t_lang(i18n: &I18n, key: &str, lang: &str) -> (r: String)
    ensures
        r@ == translate(i18n.tr_table(), i18n.en_table(), language_of(lang@), key@),
        lang@ == language_code(i18n.language()) ==> r@ == i18n.text_for(key@),
        lang@ == language_code(Language::En) ==> r@ == translate(
            i18n.tr_table(),
            i18n.en_table(),
            Language::En,
            key@,
        ),
        lang@ == language_code(Language::Tr) ==> r@ == translate(
            i18n.tr_table(),
            i18n.en_table(),
            Language::Tr,
            key@,
        ),
{
    translate_in(i18n, key, language_from(lang))
}

// ---------------------------------------------------------------------------
// Placeholders
// ---------------------------------------------------------------------------

/// `pattern` with its `{}` placeholders filled in order: the first argument
/// replaces the first placeholder of the pattern, the next argument the next
/// placeholder after it, and so on; text put in is not searched again.
/// Placeholders left over stay as they are; arguments left over are ignored.
pub open spec fn fill_placeholders(pattern: Seq<char>, args: Seq<Seq<char>>) -> Seq<char>
    decreases args.len(),
{
    if args.len() == 0 {
        pattern
    } else {
        match index_of(pattern, "{}"@) {
            Some(p) => pattern.take(p as int) + args[0] + fill_placeholders(
                pattern.skip(p + 2 as int),
                args.drop_first(),
            ),
            None => pattern,
        }
    }
}

/// The views of a slice of string slices.
pub open spec fn strs_view(args: Seq<&str>) -> Seq<Seq<char>> {
    args.map_values(|a: &str| a@)
}

/// The translation of `key` with its `{}` placeholders filled by `args` in order.
pub fn t_fmt(i18n: &I18n, key: &str, args: &[&str]) -> (r: String)
    ensures
        r@ == fill_placeholders(i18n.text_for(key@), strs_view(args@)),
{
    proof {
        reveal_strlit("{}");
    }
    let pattern = t(i18n, key);
    let mut cur = chars_of(pattern.as_str());
    let mut out: Vec<char> = Vec::new();
    let ghost all = strs_view(args@);
    let mut k: usize = 0;
    assert(all.skip(0) =~= all);
    assert(out@ + cur@ =~= cur@);
    while k < args.len()
        invariant
            all == strs_view(args@),
            k <= args@.len(),
            fill_placeholders(i18n.text_for(key@), all) == out@ + fill_placeholders(
                cur@,
                all.skip(k as int),
            ),
        decreases args@.len() - k,
    {
        proof {
            reveal_strlit("{}");
        }
        let ghost rest = all.skip(k as int);
        assert(rest[0] == args@[k as int]@);
        assert(rest.drop_first() =~= all.skip(k + 1));
        match index_of_str(cur.as_slice(), "{}") {
            Some(pos) => {
                let a = chars_of(args[k]);
                let ghost out0 = out@;
                let mut j: usize = 0;
                while j < pos
                    invariant
                        pos + 2 <= cur@.len(),
                        j <= pos,
                        out@ == out0 + cur@.take(j as int),
                    decreases pos - j,
                {
                    out.push(cur[j]);
                    assert(cur@.take(j + 1) =~= cur@.take(j as int).push(cur@[j as int]));
                    j += 1;
                }
                let mut q: usize = 0;
                while q < a.len()
                    invariant
                        pos + 2 <= cur@.len(),
                        q <= a@.len(),
                        out@ == out0 + cur@.take(pos as int) + a@.take(q as int),
                    decreases a@.len() - q,
                {
                    out.push(a[q]);
                    assert(a@.take(q + 1) =~= a@.take(q as int).push(a@[q as int]));
                    q += 1;
                }
                assert(a@.take(a@.len() as int) =~= a@);
                let n = cur.len();
                let mut next: Vec<char> = Vec::new();
                let mut j2: usize = pos + 2;
                while j2 < n
                    invariant
                        n == cur@.len(),
                        pos + 2 <= j2 <= n,
                        next@ == cur@.subrange(pos + 2, j2 as int),
                    decreases n - j2,
                {
                    next.push(cur[j2]);
                    assert(cur@.subrange(pos + 2, j2 + 1) =~= cur@.subrange(pos + 2, j2 as int).push(
                        cur@[j2 as int],
                    ));
                    j2 += 1;
                }
                assert(cur@.subrange(pos + 2, n as int) =~= cur@.skip(pos + 2));
                assert(out0 + cur@.take(pos as int) + a@ + fill_placeholders(next@, all.skip(k + 1))
                    =~= out0 + (cur@.take(pos as int) + a@ + fill_placeholders(next@, all.skip(k + 1))));
                cur = next;
            },
            None => {
                let r = crate::text::string_of(out.as_slice());
                let mut r = r;
                crate::text::push_chars(&mut r, cur.as_slice());
                return r;
            },
        }
        k += 1;
    }
    assert(all.skip(k as int).len() == 0);
    let mut r = crate::text::string_of(out.as_slice());
    crate::text::push_chars(&mut r, cur.as_slice());
    r
}

// ---------------------------------------------------------------------------
// Localising stored texts
// ---------------------------------------------------------------------------

/// Whether a trimmed throttling text says that there is none.
pub open spec fn means_none(t: Seq<char>) -> bool {
    t.len() == 0 || eq_ignore_ascii_case(t, "none"@) || t == "Yok"@ || t == "-"@ || t == "Hayır"@
}

/// The translation key of the throttling kind that a lower-cased text names.
pub open spec fn throttling_key(lower: Seq<char>) -> Option<Seq<char>> {
    if contains(lower, "termal"@) || contains(lower, "thermal"@) {
        Some("throttling_thermal"@)
    } else if contains(lower, "güç"@) || contains(lower, "guc"@) || contains(lower, "power"@) {
        Some("throttling_power"@)
    } else if contains(lower, "donanım"@) || contains(lower, "donanim"@) || contains(
        lower,
        "hardware"@,
    ) {
        Some("throttling_hardware"@)
    } else {
        None
    }
}

/// The bracketed part of a throttling text: from the first "(%" through the first
/// ")"; or, when either is missing, from the first "(" through the first ")".
pub open spec fn throttling_bracket(t: Seq<char>) -> Option<Seq<char>> {
    match (index_of(t, "(%"@), index_of(t, ")"@)) {
        (Some(o), Some(c)) => if o < c {
            Some(t.subrange(o as int, c as int + 1))
        } else {
            None
        },
        _ => match (index_of(t, "("@), index_of(t, ")"@)) {
            (Some(o), Some(c)) => if o < c {
                Some(t.subrange(o as int, c as int + 1))
            } else {
                None
            },
            _ => None,
        },
    }
}

/// A throttling text in the current language: "none" words become the word for
/// none; a named kind becomes its translation, followed by the bracketed part if
/// any; "detected" words become the word for detected; anything else is kept,
/// trimmed.
pub open spec fn throttling_text(i: I18n, s: Seq<char>) -> Seq<char> {
    let t = trim(s);
    if means_none(t) {
        i.text_for("none"@)
    } else {
        let lower = lowercase(t);
        match throttling_key(lower) {
            Some(k) => match throttling_bracket(t) {
                Some(b) => i.text_for(k) + " "@ + b,
                None => i.text_for(k),
            },
            None => if contains(lower, "tespit"@) || contains(lower, "detected"@) {
                i.text_for("detected"@)
            } else {
                t
            },
        }
    }
}

fn throttling_key_of(lower: &[char]) -> (r: Option<&'static str>)
    ensures
        match r {
            Some(k) => throttling_key(lower@) == Some(k@),
            None => throttling_key(lower@) is None,
        },
{
    if contains_str(lower, "termal") || contains_str(lower, "thermal") {
        Some("throttling_thermal")
    } else if contains_str(lower, "güç") || contains_str(lower, "guc") || contains_str(
        lower,
        "power",
    ) {
        Some("throttling_power")
    } else if contains_str(lower, "donanım") || contains_str(lower, "donanim") || contains_str(
        lower,
        "hardware",
    ) {
        Some("throttling_hardware")
    } else {
        None
    }
}

/// The characters from `o` through `c`.
fn chars_through(t: &[char], o: usize, c: usize) -> (r: Vec<char>)
    requires
        o <= c < t@.len(),
    ensures
        r@ == t@.subrange(o as int, c + 1),
{
    let mut r: Vec<char> = Vec::new();
    let mut j = o;
    while j <= c
        invariant
            o <= j <= c + 1,
            c < t@.len(),
            r@ == t@.subrange(o as int, j as int),
        decreases c + 1 - j,
    {
        r.push(t[j]);
        assert(t@.subrange(o as int, j + 1) =~= t@.subrange(o as int, j as int).push(t@[j as int]));
        j += 1;
    }
    r
}

fn throttling_bracket_of(t: &[char]) -> (r: Option<Vec<char>>)
    ensures
        match r {
            Some(b) => throttling_bracket(t@) == Some(b@),
            None => throttling_bracket(t@) is None,
        },
{
    proof {
        reveal_strlit(")");
    }
    let close = index_of_str(t, ")");
    match (index_of_str(t, "(%"), close) {
        (Some(o), Some(c)) => {
            if o < c {
                Some(chars_through(t, o, c))
            } else {
                None
            }
        },
        _ => match (index_of_str(t, "("), close) {
            (Some(o), Some(c)) => {
                if o < c {
                    Some(chars_through(t, o, c))
                } else {
                    None
                }
            },
            _ => None,
        },
    }
}

/// Turns a stored throttling text into the words of the current language.
pub fn localize_throttling(i18n: &I18n, s: &str) -> (r: String)
    ensures
        r@ == throttling_text(*i18n, s@),
{
    let v = chars_of(s);
    let tv = trim_chars(v.as_slice());
    let t0 = tv.as_slice();
    if tv.len() == 0 || eq_ignore_ascii_case_str(t0, "none") || eq_str(t0, "Yok") || eq_str(t0, "-")
        || eq_str(t0, "Hayır") {
        return t(i18n, "none");
    }
    let ts = string_of(t0);
    let lower_s = to_lowercase(ts.as_str());
    let lower = chars_of(lower_s.as_str());
    match throttling_key_of(lower.as_slice()) {
        Some(k) => {
            let mut label = t(i18n, k);
            match throttling_bracket_of(t0) {
                Some(b) => {
                    push_str(&mut label, " ");
                    crate::text::push_chars(&mut label, b.as_slice());
                    label
                },
                None => label,
            }
        },
        None => {
            if contains_str(lower.as_slice(), "tespit") || contains_str(lower.as_slice(), "detected") {
                t(i18n, "detected")
            } else {
                ts
            }
        },
    }
}

/// A power-profile text in the current language.
pub open spec fn power_profile_text(i: I18n, s: Seq<char>) -> Seq<char> {
    let lower = lowercase(s);
    if contains(lower, "performance"@) || contains(lower, "performans"@) {
        i.text_for("profile_performance"@)
    } else if contains(lower, "balanced"@) || contains(lower, "dengeli"@) {
        i.text_for("profile_balanced"@)
    } else if contains(lower, "power-saver"@) || contains(lower, "tasarruf"@) || contains(
        lower,
        "saver"@,
    ) {
        i.text_for("profile_power_saver"@)
    } else if contains(lower, "metodoloji"@) || contains(lower, "methodology"@) {
        i.text_for("methodology_badge"@)
    } else if s.len() == 0 || s == "Yok"@ || eq_ignore_ascii_case(s, "none"@) || s == "-"@ || s
        == "Bilinmiyor"@ || eq_ignore_ascii_case(s, "unknown"@) {
        i.text_for("unknown"@)
    } else {
        s
    }
}

/// Turns a stored power-profile text into the words of the current language.
pub fn localize_power_profile(i18n: &I18n, s: &str) -> (r: String)
    ensures
        r@ == power_profile_text(*i18n, s@),
{
    let v = chars_of(s);
    let c = v.as_slice();
    let lower_s = to_lowercase(s);
    let lv = chars_of(lower_s.as_str());
    let l = lv.as_slice();
    if contains_str(l, "performance") || contains_str(l, "performans") {
        t(i18n, "profile_performance")
    } else if contains_str(l, "balanced") || contains_str(l, "dengeli") {
        t(i18n, "profile_balanced")
    } else if contains_str(l, "power-saver") || contains_str(l, "tasarruf") || contains_str(l, "saver") {
        t(i18n, "profile_power_saver")
    } else if contains_str(l, "metodoloji") || contains_str(l, "methodology") {
        t(i18n, "methodology_badge")
    } else if v.len() == 0 || eq_str(c, "Yok") || eq_ignore_ascii_case_str(c, "none") || eq_str(c, "-")
        || eq_str(c, "Bilinmiyor") || eq_ignore_ascii_case_str(c, "unknown") {
        t(i18n, "unknown")
    } else {
        String::from_str(s)
    }
}

/// A run status in the current language: completed, error and cancelled words in
/// either language become the current word; anything else is kept, trimmed.
pub open spec fn status_text(i: I18n, s: Seq<char>) -> Seq<char> {
    let t = trim(s);
    let lower = lowercase(t);
    if contains(t, "TAMAM"@) || contains(lower, "tamam"@) || contains(lower, "completed"@)
        || contains(lower, "başarılı"@) || contains(lower, "basarili"@) || lower == "success"@ {
        i.text_for("status_completed"@)
    } else if contains(t, "HATA"@) || contains(lower, "hata"@) || contains(lower, "error"@)
        || contains(lower, "başarısız"@) || contains(lower, "basarisiz"@) || contains(
        lower,
        "failed"@,
    ) || lower == "fail"@ {
        i.text_for("status_error"@)
    } else if contains(t, "İPTAL"@) || contains(lower, "iptal"@) || contains(lower, "durduruldu"@)
        || contains(lower, "cancel"@) || contains(lower, "stopped"@) {
        i.text_for("status_cancelled"@)
    } else {
        t
    }
}

/// Turns a stored run status into the words of the current language.
pub fn localize_status(i18n: &I18n, s: &str) -> (r: String)
    ensures
        r@ == status_text(*i18n, s@),
{
    let v = chars_of(s);
    let tv = trim_chars(v.as_slice());
    let tc = tv.as_slice();
    let ts = string_of(tc);
    let lower_s = to_lowercase(ts.as_str());
    let lv = chars_of(lower_s.as_str());
    let l = lv.as_slice();
    if contains_str(tc, "TAMAM") || contains_str(l, "tamam") || contains_str(l, "completed")
        || contains_str(l, "başarılı") || contains_str(l, "basarili") || eq_str(l, "success") {
        t(i18n, "status_completed")
    } else if contains_str(tc, "HATA") || contains_str(l, "hata") || contains_str(l, "error")
        || contains_str(l, "başarısız") || contains_str(l, "basarisiz") || contains_str(l, "failed")
        || eq_str(l, "fail") {
        t(i18n, "status_error")
    } else if contains_str(tc, "İPTAL") || contains_str(l, "iptal") || contains_str(l, "durduruldu")
        || contains_str(l, "cancel") || contains_str(l, "stopped") {
        t(i18n, "status_cancelled")
    } else {
        ts
    }
}

/// A GPU-mode text in the current language: "mixed" words, else the mode that
/// the text names.
pub open spec fn gpu_mode_text(i: I18n, s: Seq<char>) -> Seq<char> {
    let lower = lowercase(trim(s));
    if contains(lower, "karma"@) || contains(lower, "mixed"@) {
        i.text_for("gpu_mode_mixed"@)
    } else {
        match gpu_mode_of(s) {
            GpuMode::NvidiaDgpu => i.text_for("gpu_mode_nvidia"@),
            GpuMode::Integrated => i.text_for("gpu_mode_igpu"@),
            GpuMode::Auto => i.text_for("gpu_mode_default"@),
        }
    }
}

/// Turns a stored GPU-mode text into the words of the current language.
pub fn localize_gpu_mode(i18n: &I18n, s: &str) -> (r: String)
    ensures
        r@ == gpu_mode_text(*i18n, s@),
{
    let v = chars_of(s);
    let tv = trim_chars(v.as_slice());
    let ts = string_of(tv.as_slice());
    let lower_s = to_lowercase(ts.as_str());
    let lv = chars_of(lower_s.as_str());
    if contains_str(lv.as_slice(), "karma") || contains_str(lv.as_slice(), "mixed") {
        t(i18n, "gpu_mode_mixed")
    } else {
        match GpuMode::from_display_str(s) {
            GpuMode::NvidiaDgpu => t(i18n, "gpu_mode_nvidia"),
            GpuMode::Integrated => t(i18n, "gpu_mode_igpu"),
            GpuMode::Auto => t(i18n, "gpu_mode_default"),
        }
    }
}

} // verus!
