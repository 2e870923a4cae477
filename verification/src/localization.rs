//! Interface language selection and the texts of the interface in each
//! supported language.

use vstd::prelude::*;
use crate::text::{chars_of, contains_chars, contains_seq, lower_all, lower_chars, str_eq};

verus! {

pub const LANGUAGE_SETTING_KEY: &'static str = "language";

#[derive(Debug, Clone, Copy, PartialEq, Eq, Structural)]
pub enum Language {
    English,
    Japanese,
    Spanish,
}

impl Language {
    pub open spec fn from_combo_id_spec(id: Seq<char>) -> Language {
        if id == "ja"@ {
            Language::Japanese
        } else if id == "es"@ {
            Language::Spanish
        } else {
            Language::English
        }
    }

    /// The language chosen in the settings list; unknown ids mean English.
    pub fn from_combo_id(id: &str) -> (l: Language)
        ensures
            l == Language::from_combo_id_spec(id@),
    {
        if str_eq(id, "ja") {
            Language::Japanese
        } else if str_eq(id, "es") {
            Language::Spanish
        } else {
            Language::English
        }
    }

    pub open spec fn from_locale_spec(locale: Seq<char>) -> Language {
        if contains_seq(lower_all(locale), "ja"@) {
            Language::Japanese
        } else if contains_seq(lower_all(locale), "es"@) {
            Language::Spanish
        } else {
            Language::English
        }
    }

    /// The language of a locale name such as `ja_JP.UTF-8`, found by the
    /// language code anywhere in it, case-insensitively.
    pub fn from_locale(locale: &str) -> (l: Language)
        ensures
            l == Language::from_locale_spec(locale@),
    {
        let chars = chars_of(locale);
        let lower = lower_chars(chars.as_slice());
        let ja = chars_of("ja");
        let es = chars_of("es");
        if contains_chars(lower.as_slice(), ja.as_slice()) {
            Language::Japanese
        } else if contains_chars(lower.as_slice(), es.as_slice()) {
            Language::Spanish
        } else {
            Language::English
        }
    }

    pub open spec fn combo_id_spec(self) -> Seq<char> {
        match self {
            Language::English => "en"@,
            Language::Japanese => "ja"@,
            Language::Spanish => "es"@,
        }
    }

    pub fn combo_id(self) -> (s: &'static str)
        ensures
            s@ == self.combo_id_spec(),
    {
        match self {
            Language::English => "en",
            Language::Japanese => "ja",
            Language::Spanish => "es",
        }
    }

    pub open spec fn locale_spec(self) -> Seq<char> {
        match self {
            Language::English => "en_US.UTF-8"@,
            Language::Japanese => "ja_JP.UTF-8"@,
            Language::Spanish => "es_ES.UTF-8"@,
        }
    }

    pub fn locale(self) -> (s: &'static str)
        ensures
            s@ == self.locale_spec(),
    {
        match self {
            Language::English => "en_US.UTF-8",
            Language::Japanese => "ja_JP.UTF-8",
            Language::Spanish => "es_ES.UTF-8",
        }
    }
}

/// Reading back a stored combo id gives the same language.
pub proof fn law_combo_id_round_trip(l: Language)
    ensures
        Language::from_combo_id_spec(l.combo_id_spec()) == l,
{
    reveal_strlit("en");
    reveal_strlit("ja");
    reveal_strlit("es");
    assert("en"@[0] != "ja"@[0]);
    assert("en"@[1] != "es"@[1]);
    assert("ja"@[0] != "es"@[0]);
}

/// A language's own locale name selects that language.
pub proof fn law_locale_round_trip(l: Language)
    ensures
        Language::from_locale_spec(l.locale_spec()) == l,
{
    reveal_strlit("ja");
    reveal_strlit("es");
    reveal_strlit("en_US.UTF-8");
    reveal_strlit("ja_JP.UTF-8");
    reveal_strlit("es_ES.UTF-8");
    let ja = "ja"@;
    let es = "es"@;
    match l {
        Language::Japanese => {
            let t = lower_all("ja_JP.UTF-8"@);
            assert(t.subrange(0, 2) =~= ja);
            assert(crate::text::occurs_at(t, ja, 0));
        },
        Language::Spanish => {
            let t = lower_all("es_ES.UTF-8"@);
            assert(t.subrange(0, 2) =~= es);
            assert(crate::text::occurs_at(t, es, 0));
            assert forall|i: int| !crate::text::occurs_at(t, ja, i) by {
                if 0 <= i && i + 2 <= t.len() {
                    assert(t.subrange(i, i + 2)[0] == t[i]);
                    assert(t.subrange(i, i + 2)[1] == t[i + 1]);
                }
            }
        },
        Language::English => {
            let t = lower_all("en_US.UTF-8"@);
            assert forall|i: int| !crate::text::occurs_at(t, ja, i) && !crate::text::occurs_at(t, es, i) by {
                if 0 <= i && i + 2 <= t.len() {
                    assert(t.subrange(i, i + 2)[0] == t[i]);
                    assert(t.subrange(i, i + 2)[1] == t[i + 1]);
                }
            }
        },
    }
}

/// Japanese texts of the interface.
pub open spec fn japanese_text(m: Seq<char>) -> Option<Seq<char>> {
    if m == "Dashboard"@ {
        Some("ダッシュボード"@)
    } else if m == "Log Analysis"@ {
        Some("ログ分析"@)
    } else if m == "Data Charts"@ {
        Some("データチャート"@)
    } else if m == "Maintenance"@ {
        Some("整備記録"@)
    } else if m == "CAN IDs"@ {
        Some("CAN ID"@)
    } else if m == "IDs"@ {
        Some("ID"@)
    } else if m == "Settings"@ {
        Some("設定"@)
    } else if m == "Vehicle health"@ {
        Some("健康スコア"@)
    } else if m == "Recalculate all"@ {
        Some("すべて再計算"@)
    } else if m == "Hour"@ {
        Some("時間"@)
    } else if m == "Day"@ {
        Some("日"@)
    } else if m == "Week"@ {
        Some("週"@)
    } else if m == "Month"@ {
        Some("月"@)
    } else if m == "Year"@ {
        Some("年"@)
    } else if m == "Previous period"@ {
        Some("前の期間"@)
    } else if m == "Next period"@ {
        Some("次の期間"@)
    } else if m == "Score trend"@ {
        Some("スコア推移"@)
    } else if m == "Areas"@ {
        Some("領域別スコア"@)
    } else if m == "Why the score changed"@ {
        Some("スコアが変化した理由"@)
    } else if m == "Period data"@ {
        Some("対象期間データ"@)
    } else if m == "Backfill / recalculation"@ {
        Some("バックフィル／再計算"@)
    } else if m == "No recalculation result"@ {
        Some("再計算結果はありません"@)
    } else if m == "Recalculate all health scores?"@ {
        Some("すべての健康スコアを再計算しますか？"@)
    } else if m == "Raw logs will not be deleted or changed. Processing continues in the background."@ {
        Some("生ログは削除・変更されません。処理はバックグラウンドで続行します。"@)
    } else if m == "Read-only database; recalculation is disabled"@ {
        Some("データベースが読み取り専用のため再計算できません"@)
    } else if m == "Read-only"@ {
        Some("読み取り専用"@)
    } else if m == "Recalculation in progress"@ {
        Some("再計算中"@)
    } else if m == "Recalculation completed"@ {
        Some("再計算が完了しました"@)
    } else if m == "Recalculation failed; retry is available"@ {
        Some("再計算に失敗しました。再試行できます"@)
    } else if m == "Database error"@ {
        Some("データベースエラー"@)
    } else if m == "No data"@ {
        Some("データなし"@)
    } else if m == "No driving data in this period"@ {
        Some("この期間に走行データはありません"@)
    } else if m == "Learning"@ {
        Some("学習中"@)
    } else if m == "Insufficient data"@ {
        Some("データ不足"@)
    } else if m == "Calculation failed"@ {
        Some("計算失敗"@)
    } else if m == "Critical decline"@ {
        Some("重大な低下"@)
    } else if m == "Attention"@ {
        Some("注意"@)
    } else if m == "Healthy"@ {
        Some("正常"@)
    } else if m == "Unavailable"@ {
        Some("評価不能"@)
    } else if m == "vs previous"@ {
        Some("前回比"@)
    } else if m == "Previous comparison unavailable"@ {
        Some("前回比は評価不能"@)
    } else if m == "Confidence"@ {
        Some("判定信頼度"@)
    } else if m == "Last updated"@ {
        Some("最終更新"@)
    } else if m == "Valid sessions"@ {
        Some("有効セッション"@)
    } else if m == "Learning time"@ {
        Some("学習時間"@)
    } else if m == "Current score is provisional"@ {
        Some("現在のスコアは参考値"@)
    } else if m == "Trips"@ {
        Some("走行数"@)
    } else if m == "Evaluated time"@ {
        Some("評価時間"@)
    } else if m == "Samples"@ {
        Some("サンプル数"@)
    } else if m == "Data coverage"@ {
        Some("データカバレッジ"@)
    } else if m == "Coverage"@ {
        Some("カバレッジ"@)
    } else if m == "Completed"@ {
        Some("完了"@)
    } else if m == "Processing"@ {
        Some("処理中"@)
    } else if m == "Thermal"@ {
        Some("thermal（熱）"@)
    } else if m == "Electrical"@ {
        Some("electrical（電気）"@)
    } else if m == "Air / fuel"@ {
        Some("air_fuel（吸気・燃料）"@)
    } else if m == "Running stability"@ {
        Some("running_stability（走行安定性）"@)
    } else if m == "No significant change reason"@ {
        Some("顕著な変化理由はありません"@)
    } else if m == "Impact"@ {
        Some("影響量"@)
    } else if m == "Language"@ {
        Some("言語"@)
    } else if m == "CAN ID Manager"@ {
        Some("CAN ID管理"@)
    } else if m == "ID Manager"@ {
        Some("ID管理"@)
    } else if m == "Review known definitions and promote unknown CAN IDs."@ {
        Some("既知の定義を確認し、不明なCAN IDを登録します。"@)
    } else if m == "Review known definitions and promote unknown IDs."@ {
        Some("既知の定義を確認し、不明なIDを登録します。"@)
    } else if m == "Known PIDs"@ {
        Some("既知のPID"@)
    } else if m == "Known CAN IDs"@ {
        Some("既知のCAN ID"@)
    } else if m == "Unknown PIDs"@ {
        Some("不明なPID"@)
    } else if m == "Unknown CAN IDs"@ {
        Some("不明なCAN ID"@)
    } else if m == "Known Signals"@ {
        Some("既知の信号"@)
    } else if m == "Plot DuckDB log data by known PID or CAN ID definitions."@ {
        Some("DuckDBのログデータを既知のPIDまたはCAN ID定義で表示します。"@)
    } else if m == "Select signals to overlay on the time axis."@ {
        Some("時間軸に重ねて表示する信号を選択します。"@)
    } else if m == "Time Series"@ {
        Some("時系列"@)
    } else if m == "No data loaded"@ {
        Some("データが読み込まれていません"@)
    } else if m == "Compare"@ {
        Some("比較"@)
    } else if m == "Absolute"@ {
        Some("実値"@)
    } else if m == "Refresh"@ {
        Some("更新"@)
    } else if m == "Compare scales each selected signal to 0-100% and keeps actual ranges in the legend."@ {
        Some("比較表示では各信号を0-100%に正規化し、実値範囲は凡例に表示します。"@)
    } else if m == "No known PIDs"@ {
        Some("既知のPIDがありません"@)
    } else if m == "No known CAN IDs"@ {
        Some("既知のCAN IDがありません"@)
    } else if m == "No unknown PIDs"@ {
        Some("不明なPIDはありません"@)
    } else if m == "No unknown CAN IDs"@ {
        Some("不明なCAN IDはありません"@)
    } else if m == "No known signal definitions"@ {
        Some("既知の信号定義がありません"@)
    } else if m == "Repository is unavailable"@ {
        Some("リポジトリを利用できません"@)
    } else if m == "Select signals"@ {
        Some("信号を選択してください"@)
    } else if m == "Failed to load"@ {
        Some("読み込みに失敗しました"@)
    } else if m == "Save"@ {
        Some("保存"@)
    } else if m == "Promote"@ {
        Some("登録"@)
    } else if m == "Name"@ {
        Some("名前"@)
    } else if m == "Formula"@ {
        Some("式"@)
    } else if m == "No selected signal data"@ {
        Some("選択された信号データがありません"@)
    } else if m == "normalized per signal"@ {
        Some("信号ごとに正規化"@)
    } else if m == "absolute values"@ {
        Some("実値"@)
    } else if m == "series"@ {
        Some("系列"@)
    } else if m == "points"@ {
        Some("点"@)
    } else if m == "now"@ {
        Some("最新"@)
    } else if m == "Realtime vehicle telemetry"@ {
        Some("リアルタイム車両テレメトリー"@)
    } else if m == "● LIVE"@ {
        Some("● ライブ"@)
    } else if m == "ENGINE"@ {
        Some("エンジン"@)
    } else if m == "Vehicle speed"@ {
        Some("車速"@)
    } else if m == "Intake pressure"@ {
        Some("吸気圧"@)
    } else if m == "Timing advance"@ {
        Some("点火時期"@)
    } else if m == "Voltage"@ {
        Some("電圧"@)
    } else if m == "LIVE RATIOS"@ {
        Some("リアルタイム比率"@)
    } else if m == "TEMPERATURES"@ {
        Some("温度"@)
    } else if m == "Coolant"@ {
        Some("冷却水"@)
    } else if m == "Intake air"@ {
        Some("吸気"@)
    } else if m == "Ambient"@ {
        Some("外気"@)
    } else if m == "Engine oil"@ {
        Some("エンジンオイル"@)
    } else if m == "Catalyst"@ {
        Some("触媒"@)
    } else if m == "TRIP & DIAGNOSTICS"@ {
        Some("走行・診断情報"@)
    } else if m == "MIL distance"@ {
        Some("警告灯点灯中の距離"@)
    } else if m == "DTC cleared distance"@ {
        Some("故障コード消去後の距離"@)
    } else if m == "Engine run time"@ {
        Some("エンジン経過時間"@)
    } else if m == "Signal"@ {
        Some("信号"@)
    } else if m == "Value"@ {
        Some("値"@)
    } else if m == "Source"@ {
        Some("送信元"@)
    } else if m == "CAN ID"@ {
        Some("CAN ID"@)
    } else if m == "Payload"@ {
        Some("ペイロード"@)
    } else if m == "Count"@ {
        Some("回数"@)
    } else if m == "Engine load"@ {
        Some("エンジン負荷"@)
    } else if m == "Throttle"@ {
        Some("スロットル"@)
    } else if m == "Accelerator"@ {
        Some("アクセル"@)
    } else if m == "Commanded throttle"@ {
        Some("指示スロットル"@)
    } else if m == "Short fuel trim"@ {
        Some("短期燃調"@)
    } else if m == "Long fuel trim"@ {
        Some("長期燃調"@)
    } else if m == "Fuel level"@ {
        Some("燃料残量"@)
    } else if m == "No frames"@ {
        Some("フレーム未受信"@)
    } else if m == "Waiting for decoded CAN/PID values"@ {
        Some("CAN/PIDの解析値を待っています"@)
    } else if m == "No unknown frames"@ {
        Some("不明なフレームはありません"@)
    } else if m == "Some changes might require restart."@ {
        Some("一部の変更を適用するには再起動が必要な場合があります。"@)
    } else {
        None
    }
}

/// Spanish texts of the interface.
pub open spec fn spanish_text(m: Seq<char>) -> Option<Seq<char>> {
    if m == "Dashboard"@ {
        Some("Tablero"@)
    } else if m == "Log Analysis"@ {
        Some("Análisis de registros"@)
    } else if m == "Data Charts"@ {
        Some("Gráficas de datos"@)
    } else if m == "Maintenance"@ {
        Some("Mantenimiento"@)
    } else if m == "CAN IDs"@ {
        Some("IDs CAN"@)
    } else if m == "IDs"@ {
        Some("IDs"@)
    } else if m == "Settings"@ {
        Some("Configuración"@)
    } else if m == "Language"@ {
        Some("Idioma"@)
    } else if m == "CAN ID Manager"@ {
        Some("Gestor de IDs CAN"@)
    } else if m == "ID Manager"@ {
        Some("Gestor de IDs"@)
    } else if m == "Review known definitions and promote unknown CAN IDs."@ {
        Some("Revise definiciones conocidas y registre IDs CAN desconocidos."@)
    } else if m == "Review known definitions and promote unknown IDs."@ {
        Some("Revise definiciones conocidas y registre IDs desconocidos."@)
    } else if m == "Known PIDs"@ {
        Some("PIDs conocidos"@)
    } else if m == "Known CAN IDs"@ {
        Some("IDs CAN conocidos"@)
    } else if m == "Unknown PIDs"@ {
        Some("PIDs desconocidos"@)
    } else if m == "Unknown CAN IDs"@ {
        Some("IDs CAN desconocidos"@)
    } else if m == "Known Signals"@ {
        Some("Señales conocidas"@)
    } else if m == "Plot DuckDB log data by known PID or CAN ID definitions."@ {
        Some("Grafique los registros de DuckDB con definiciones conocidas de PID o ID CAN."@)
    } else if m == "Select signals to overlay on the time axis."@ {
        Some("Seleccione señales para superponerlas en el eje de tiempo."@)
    } else if m == "Time Series"@ {
        Some("Serie temporal"@)
    } else if m == "No data loaded"@ {
        Some("No hay datos cargados"@)
    } else if m == "Compare"@ {
        Some("Comparar"@)
    } else if m == "Absolute"@ {
        Some("Absoluto"@)
    } else if m == "Refresh"@ {
        Some("Actualizar"@)
    } else if m == "Compare scales each selected signal to 0-100% and keeps actual ranges in the legend."@ {
        Some("Comparar escala cada señal a 0-100% y conserva los rangos reales en la leyenda."@)
    } else if m == "No known PIDs"@ {
        Some("No hay PIDs conocidos"@)
    } else if m == "No known CAN IDs"@ {
        Some("No hay IDs CAN conocidos"@)
    } else if m == "No unknown PIDs"@ {
        Some("No hay PIDs desconocidos"@)
    } else if m == "No unknown CAN IDs"@ {
        Some("No hay IDs CAN desconocidos"@)
    } else if m == "No known signal definitions"@ {
        Some("No hay definiciones de señal conocidas"@)
    } else if m == "Repository is unavailable"@ {
        Some("El repositorio no está disponible"@)
    } else if m == "Select signals"@ {
        Some("Seleccione señales"@)
    } else if m == "Failed to load"@ {
        Some("Error al cargar"@)
    } else if m == "Save"@ {
        Some("Guardar"@)
    } else if m == "Promote"@ {
        Some("Registrar"@)
    } else if m == "Name"@ {
        Some("Nombre"@)
    } else if m == "Formula"@ {
        Some("Fórmula"@)
    } else if m == "No selected signal data"@ {
        Some("No hay datos para las señales seleccionadas"@)
    } else if m == "normalized per signal"@ {
        Some("normalizado por señal"@)
    } else if m == "absolute values"@ {
        Some("valores absolutos"@)
    } else if m == "series"@ {
        Some("series"@)
    } else if m == "points"@ {
        Some("puntos"@)
    } else if m == "now"@ {
        Some("actual"@)
    } else if m == "Realtime vehicle telemetry"@ {
        Some("Telemetría del vehículo en tiempo real"@)
    } else if m == "● LIVE"@ {
        Some("● EN VIVO"@)
    } else if m == "ENGINE"@ {
        Some("MOTOR"@)
    } else if m == "Vehicle speed"@ {
        Some("Velocidad"@)
    } else if m == "Intake pressure"@ {
        Some("Presión de admisión"@)
    } else if m == "Timing advance"@ {
        Some("Avance de encendido"@)
    } else if m == "Voltage"@ {
        Some("Voltaje"@)
    } else if m == "LIVE RATIOS"@ {
        Some("PROPORCIONES EN VIVO"@)
    } else if m == "TEMPERATURES"@ {
        Some("TEMPERATURAS"@)
    } else if m == "Coolant"@ {
        Some("Refrigerante"@)
    } else if m == "Intake air"@ {
        Some("Aire de admisión"@)
    } else if m == "Ambient"@ {
        Some("Ambiente"@)
    } else if m == "Engine oil"@ {
        Some("Aceite del motor"@)
    } else if m == "Catalyst"@ {
        Some("Catalizador"@)
    } else if m == "TRIP & DIAGNOSTICS"@ {
        Some("VIAJE Y DIAGNÓSTICO"@)
    } else if m == "MIL distance"@ {
        Some("Distancia con MIL"@)
    } else if m == "DTC cleared distance"@ {
        Some("Distancia desde borrado DTC"@)
    } else if m == "Engine run time"@ {
        Some("Tiempo del motor"@)
    } else if m == "Signal"@ {
        Some("Señal"@)
    } else if m == "Value"@ {
        Some("Valor"@)
    } else if m == "Source"@ {
        Some("Origen"@)
    } else if m == "CAN ID"@ {
        Some("ID CAN"@)
    } else if m == "Payload"@ {
        Some("Carga útil"@)
    } else if m == "Count"@ {
        Some("Conteo"@)
    } else if m == "Engine load"@ {
        Some("Carga del motor"@)
    } else if m == "Throttle"@ {
        Some("Acelerador"@)
    } else if m == "Accelerator"@ {
        Some("Pedal del acelerador"@)
    } else if m == "Commanded throttle"@ {
        Some("Acelerador solicitado"@)
    } else if m == "Short fuel trim"@ {
        Some("Ajuste corto de combustible"@)
    } else if m == "Long fuel trim"@ {
        Some("Ajuste largo de combustible"@)
    } else if m == "Fuel level"@ {
        Some("Nivel de combustible"@)
    } else if m == "No frames"@ {
        Some("Sin tramas"@)
    } else if m == "Waiting for decoded CAN/PID values"@ {
        Some("Esperando valores CAN/PID decodificados"@)
    } else if m == "No unknown frames"@ {
        Some("No hay tramas desconocidas"@)
    } else if m == "Some changes might require restart."@ {
        Some("Algunos cambios pueden requerir un reinicio."@)
    } else {
        None
    }
}

fn japanese(m: &str) -> (r: Option<&'static str>)
    ensures
        match r {
            Some(t) => japanese_text(m@) == Some(t@),
            None => japanese_text(m@) is None,
        },
{
    if str_eq(m, "Dashboard") {
        return Some("ダッシュボード");
    }
    if str_eq(m, "Log Analysis") {
        return Some("ログ分析");
    }
    if str_eq(m, "Data Charts") {
        return Some("データチャート");
    }
    if str_eq(m, "Maintenance") {
        return Some("整備記録");
    }
    if str_eq(m, "CAN IDs") {
        return Some("CAN ID");
    }
    if str_eq(m, "IDs") {
        return Some("ID");
    }
    if str_eq(m, "Settings") {
        return Some("設定");
    }
    if str_eq(m, "Vehicle health") {
        return Some("健康スコア");
    }
    if str_eq(m, "Recalculate all") {
        return Some("すべて再計算");
    }
    if str_eq(m, "Hour") {
        return Some("時間");
    }
    if str_eq(m, "Day") {
        return Some("日");
    }
    if str_eq(m, "Week") {
        return Some("週");
    }
    if str_eq(m, "Month") {
        return Some("月");
    }
    if str_eq(m, "Year") {
        return Some("年");
    }
    if str_eq(m, "Previous period") {
        return Some("前の期間");
    }
    if str_eq(m, "Next period") {
        return Some("次の期間");
    }
    if str_eq(m, "Score trend") {
        return Some("スコア推移");
    }
    if str_eq(m, "Areas") {
        return Some("領域別スコア");
    }
    if str_eq(m, "Why the score changed") {
        return Some("スコアが変化した理由");
    }
    if str_eq(m, "Period data") {
        return Some("対象期間データ");
    }
    if str_eq(m, "Backfill / recalculation") {
        return Some("バックフィル／再計算");
    }
    if str_eq(m, "No recalculation result") {
        return Some("再計算結果はありません");
    }
    if str_eq(m, "Recalculate all health scores?") {
        return Some("すべての健康スコアを再計算しますか？");
    }
    if str_eq(m, "Raw logs will not be deleted or changed. Processing continues in the background.") {
        return Some("生ログは削除・変更されません。処理はバックグラウンドで続行します。");
    }
    if str_eq(m, "Read-only database; recalculation is disabled") {
        return Some("データベースが読み取り専用のため再計算できません");
    }
    if str_eq(m, "Read-only") {
        return Some("読み取り専用");
    }
    if str_eq(m, "Recalculation in progress") {
        return Some("再計算中");
    }
    if str_eq(m, "Recalculation completed") {
        return Some("再計算が完了しました");
    }
    if str_eq(m, "Recalculation failed; retry is available") {
        return Some("再計算に失敗しました。再試行できます");
    }
    if str_eq(m, "Database error") {
        return Some("データベースエラー");
    }
    if str_eq(m, "No data") {
        return Some("データなし");
    }
    if str_eq(m, "No driving data in this period") {
        return Some("この期間に走行データはありません");
    }
    if str_eq(m, "Learning") {
        return Some("学習中");
    }
    if str_eq(m, "Insufficient data") {
        return Some("データ不足");
    }
    if str_eq(m, "Calculation failed") {
        return Some("計算失敗");
    }
    if str_eq(m, "Critical decline") {
        return Some("重大な低下");
    }
    if str_eq(m, "Attention") {
        return Some("注意");
    }
    if str_eq(m, "Healthy") {
        return Some("正常");
    }
    if str_eq(m, "Unavailable") {
        return Some("評価不能");
    }
    if str_eq(m, "vs previous") {
        return Some("前回比");
    }
    if str_eq(m, "Previous comparison unavailable") {
        return Some("前回比は評価不能");
    }
    if str_eq(m, "Confidence") {
        return Some("判定信頼度");
    }
    if str_eq(m, "Last updated") {
        return Some("最終更新");
    }
    if str_eq(m, "Valid sessions") {
        return Some("有効セッション");
    }
    if str_eq(m, "Learning time") {
        return Some("学習時間");
    }
    if str_eq(m, "Current score is provisional") {
        return Some("現在のスコアは参考値");
    }
    if str_eq(m, "Trips") {
        return Some("走行数");
    }
    if str_eq(m, "Evaluated time") {
        return Some("評価時間");
    }
    if str_eq(m, "Samples") {
        return Some("サンプル数");
    }
    if str_eq(m, "Data coverage") {
        return Some("データカバレッジ");
    }
    if str_eq(m, "Coverage") {
        return Some("カバレッジ");
    }
    if str_eq(m, "Completed") {
        return Some("完了");
    }
    if str_eq(m, "Processing") {
        return Some("処理中");
    }
    if str_eq(m, "Thermal") {
        return Some("thermal（熱）");
    }
    if str_eq(m, "Electrical") {
        return Some("electrical（電気）");
    }
    if str_eq(m, "Air / fuel") {
        return Some("air_fuel（吸気・燃料）");
    }
    if str_eq(m, "Running stability") {
        return Some("running_stability（走行安定性）");
    }
    if str_eq(m, "No significant change reason") {
        return Some("顕著な変化理由はありません");
    }
    if str_eq(m, "Impact") {
        return Some("影響量");
    }
    if str_eq(m, "Language") {
        return Some("言語");
    }
    if str_eq(m, "CAN ID Manager") {
        return Some("CAN ID管理");
    }
    if str_eq(m, "ID Manager") {
        return Some("ID管理");
    }
    if str_eq(m, "Review known definitions and promote unknown CAN IDs.") {
        return Some("既知の定義を確認し、不明なCAN IDを登録します。");
    }
    if str_eq(m, "Review known definitions and promote unknown IDs.") {
        return Some("既知の定義を確認し、不明なIDを登録します。");
    }
    if str_eq(m, "Known PIDs") {
        return Some("既知のPID");
    }
    if str_eq(m, "Known CAN IDs") {
        return Some("既知のCAN ID");
    }
    if str_eq(m, "Unknown PIDs") {
        return Some("不明なPID");
    }
    if str_eq(m, "Unknown CAN IDs") {
        return Some("不明なCAN ID");
    }
    if str_eq(m, "Known Signals") {
        return Some("既知の信号");
    }
    if str_eq(m, "Plot DuckDB log data by known PID or CAN ID definitions.") {
        return Some("DuckDBのログデータを既知のPIDまたはCAN ID定義で表示します。");
    }
    if str_eq(m, "Select signals to overlay on the time axis.") {
        return Some("時間軸に重ねて表示する信号を選択します。");
    }
    if str_eq(m, "Time Series") {
        return Some("時系列");
    }
    if str_eq(m, "No data loaded") {
        return Some("データが読み込まれていません");
    }
    if str_eq(m, "Compare") {
        return Some("比較");
    }
    if str_eq(m, "Absolute") {
        return Some("実値");
    }
    if str_eq(m, "Refresh") {
        return Some("更新");
    }
    if str_eq(m, "Compare scales each selected signal to 0-100% and keeps actual ranges in the legend.") {
        return Some("比較表示では各信号を0-100%に正規化し、実値範囲は凡例に表示します。");
    }
    if str_eq(m, "No known PIDs") {
        return Some("既知のPIDがありません");
    }
    if str_eq(m, "No known CAN IDs") {
        return Some("既知のCAN IDがありません");
    }
    if str_eq(m, "No unknown PIDs") {
        return Some("不明なPIDはありません");
    }
    if str_eq(m, "No unknown CAN IDs") {
        return Some("不明なCAN IDはありません");
    }
    if str_eq(m, "No known signal definitions") {
        return Some("既知の信号定義がありません");
    }
    if str_eq(m, "Repository is unavailable") {
        return Some("リポジトリを利用できません");
    }
    if str_eq(m, "Select signals") {
        return Some("信号を選択してください");
    }
    if str_eq(m, "Failed to load") {
        return Some("読み込みに失敗しました");
    }
    if str_eq(m, "Save") {
        return Some("保存");
    }
    if str_eq(m, "Promote") {
        return Some("登録");
    }
    if str_eq(m, "Name") {
        return Some("名前");
    }
    if str_eq(m, "Formula") {
        return Some("式");
    }
    if str_eq(m, "No selected signal data") {
        return Some("選択された信号データがありません");
    }
    if str_eq(m, "normalized per signal") {
        return Some("信号ごとに正規化");
    }
    if str_eq(m, "absolute values") {
        return Some("実値");
    }
    if str_eq(m, "series") {
        return Some("系列");
    }
    if str_eq(m, "points") {
        return Some("点");
    }
    if str_eq(m, "now") {
        return Some("最新");
    }
    if str_eq(m, "Realtime vehicle telemetry") {
        return Some("リアルタイム車両テレメトリー");
    }
    if str_eq(m, "● LIVE") {
        return Some("● ライブ");
    }
    if str_eq(m, "ENGINE") {
        return Some("エンジン");
    }
    if str_eq(m, "Vehicle speed") {
        return Some("車速");
    }
    if str_eq(m, "Intake pressure") {
        return Some("吸気圧");
    }
    if str_eq(m, "Timing advance") {
        return Some("点火時期");
    }
    if str_eq(m, "Voltage") {
        return Some("電圧");
    }
    if str_eq(m, "LIVE RATIOS") {
        return Some("リアルタイム比率");
    }
    if str_eq(m, "TEMPERATURES") {
        return Some("温度");
    }
    if str_eq(m, "Coolant") {
        return Some("冷却水");
    }
    if str_eq(m, "Intake air") {
        return Some("吸気");
    }
    if str_eq(m, "Ambient") {
        return Some("外気");
    }
    if str_eq(m, "Engine oil") {
        return Some("エンジンオイル");
    }
    if str_eq(m, "Catalyst") {
        return Some("触媒");
    }
    if str_eq(m, "TRIP & DIAGNOSTICS") {
        return Some("走行・診断情報");
    }
    if str_eq(m, "MIL distance") {
        return Some("警告灯点灯中の距離");
    }
    if str_eq(m, "DTC cleared distance") {
        return Some("故障コード消去後の距離");
    }
    if str_eq(m, "Engine run time") {
        return Some("エンジン経過時間");
    }
    if str_eq(m, "Signal") {
        return Some("信号");
    }
    if str_eq(m, "Value") {
        return Some("値");
    }
    if str_eq(m, "Source") {
        return Some("送信元");
    }
    if str_eq(m, "CAN ID") {
        return Some("CAN ID");
    }
    if str_eq(m, "Payload") {
        return Some("ペイロード");
    }
    if str_eq(m, "Count") {
        return Some("回数");
    }
    if str_eq(m, "Engine load") {
        return Some("エンジン負荷");
    }
    if str_eq(m, "Throttle") {
        return Some("スロットル");
    }
    if str_eq(m, "Accelerator") {
        return Some("アクセル");
    }
    if str_eq(m, "Commanded throttle") {
        return Some("指示スロットル");
    }
    if str_eq(m, "Short fuel trim") {
        return Some("短期燃調");
    }
    if str_eq(m, "Long fuel trim") {
        return Some("長期燃調");
    }
    if str_eq(m, "Fuel level") {
        return Some("燃料残量");
    }
    if str_eq(m, "No frames") {
        return Some("フレーム未受信");
    }
    if str_eq(m, "Waiting for decoded CAN/PID values") {
        return Some("CAN/PIDの解析値を待っています");
    }
    if str_eq(m, "No unknown frames") {
        return Some("不明なフレームはありません");
    }
    if str_eq(m, "Some changes might require restart.") {
        return Some("一部の変更を適用するには再起動が必要な場合があります。");
    }
    None
}

fn spanish(m: &str) -> (r: Option<&'static str>)
    ensures
        match r {
            Some(t) => spanish_text(m@) == Some(t@),
            None => spanish_text(m@) is None,
        },
{
    if str_eq(m, "Dashboard") {
        return Some("Tablero");
    }
    if str_eq(m, "Log Analysis") {
        return Some("Análisis de registros");
    }
    if str_eq(m, "Data Charts") {
        return Some("Gráficas de datos");
    }
    if str_eq(m, "Maintenance") {
        return Some("Mantenimiento");
    }
    if str_eq(m, "CAN IDs") {
        return Some("IDs CAN");
    }
    if str_eq(m, "IDs") {
        return Some("IDs");
    }
    if str_eq(m, "Settings") {
        return Some("Configuración");
    }
    if str_eq(m, "Language") {
        return Some("Idioma");
    }
    if str_eq(m, "CAN ID Manager") {
        return Some("Gestor de IDs CAN");
    }
    if str_eq(m, "ID Manager") {
        return Some("Gestor de IDs");
    }
    if str_eq(m, "Review known definitions and promote unknown CAN IDs.") {
        return Some("Revise definiciones conocidas y registre IDs CAN desconocidos.");
    }
    if str_eq(m, "Review known definitions and promote unknown IDs.") {
        return Some("Revise definiciones conocidas y registre IDs desconocidos.");
    }
    if str_eq(m, "Known PIDs") {
        return Some("PIDs conocidos");
    }
    if str_eq(m, "Known CAN IDs") {
        return Some("IDs CAN conocidos");
    }
    if str_eq(m, "Unknown PIDs") {
        return Some("PIDs desconocidos");
    }
    if str_eq(m, "Unknown CAN IDs") {
        return Some("IDs CAN desconocidos");
    }
    if str_eq(m, "Known Signals") {
        return Some("Señales conocidas");
    }
    if str_eq(m, "Plot DuckDB log data by known PID or CAN ID definitions.") {
        return Some("Grafique los registros de DuckDB con definiciones conocidas de PID o ID CAN.");
    }
    if str_eq(m, "Select signals to overlay on the time axis.") {
        return Some("Seleccione señales para superponerlas en el eje de tiempo.");
    }
    if str_eq(m, "Time Series") {
        return Some("Serie temporal");
    }
    if str_eq(m, "No data loaded") {
        return Some("No hay datos cargados");
    }
    if str_eq(m, "Compare") {
        return Some("Comparar");
    }
    if str_eq(m, "Absolute") {
        return Some("Absoluto");
    }
    if str_eq(m, "Refresh") {
        return Some("Actualizar");
    }
    if str_eq(m, "Compare scales each selected signal to 0-100% and keeps actual ranges in the legend.") {
        return Some("Comparar escala cada señal a 0-100% y conserva los rangos reales en la leyenda.");
    }
    if str_eq(m, "No known PIDs") {
        return Some("No hay PIDs conocidos");
    }
    if str_eq(m, "No known CAN IDs") {
        return Some("No hay IDs CAN conocidos");
    }
    if str_eq(m, "No unknown PIDs") {
        return Some("No hay PIDs desconocidos");
    }
    if str_eq(m, "No unknown CAN IDs") {
        return Some("No hay IDs CAN desconocidos");
    }
    if str_eq(m, "No known signal definitions") {
        return Some("No hay definiciones de señal conocidas");
    }
    if str_eq(m, "Repository is unavailable") {
        return Some("El repositorio no está disponible");
    }
    if str_eq(m, "Select signals") {
        return Some("Seleccione señales");
    }
    if str_eq(m, "Failed to load") {
        return Some("Error al cargar");
    }
    if str_eq(m, "Save") {
        return Some("Guardar");
    }
    if str_eq(m, "Promote") {
        return Some("Registrar");
    }
    if str_eq(m, "Name") {
        return Some("Nombre");
    }
    if str_eq(m, "Formula") {
        return Some("Fórmula");
    }
    if str_eq(m, "No selected signal data") {
        return Some("No hay datos para las señales seleccionadas");
    }
    if str_eq(m, "normalized per signal") {
        return Some("normalizado por señal");
    }
    if str_eq(m, "absolute values") {
        return Some("valores absolutos");
    }
    if str_eq(m, "series") {
        return Some("series");
    }
    if str_eq(m, "points") {
        return Some("puntos");
    }
    if str_eq(m, "now") {
        return Some("actual");
    }
    if str_eq(m, "Realtime vehicle telemetry") {
        return Some("Telemetría del vehículo en tiempo real");
    }
    if str_eq(m, "● LIVE") {
        return Some("● EN VIVO");
    }
    if str_eq(m, "ENGINE") {
        return Some("MOTOR");
    }
    if str_eq(m, "Vehicle speed") {
        return Some("Velocidad");
    }
    if str_eq(m, "Intake pressure") {
        return Some("Presión de admisión");
    }
    if str_eq(m, "Timing advance") {
        return Some("Avance de encendido");
    }
    if str_eq(m, "Voltage") {
        return Some("Voltaje");
    }
    if str_eq(m, "LIVE RATIOS") {
        return Some("PROPORCIONES EN VIVO");
    }
    if str_eq(m, "TEMPERATURES") {
        return Some("TEMPERATURAS");
    }
    if str_eq(m, "Coolant") {
        return Some("Refrigerante");
    }
    if str_eq(m, "Intake air") {
        return Some("Aire de admisión");
    }
    if str_eq(m, "Ambient") {
        return Some("Ambiente");
    }
    if str_eq(m, "Engine oil") {
        return Some("Aceite del motor");
    }
    if str_eq(m, "Catalyst") {
        return Some("Catalizador");
    }
    if str_eq(m, "TRIP & DIAGNOSTICS") {
        return Some("VIAJE Y DIAGNÓSTICO");
    }
    if str_eq(m, "MIL distance") {
        return Some("Distancia con MIL");
    }
    if str_eq(m, "DTC cleared distance") {
        return Some("Distancia desde borrado DTC");
    }
    if str_eq(m, "Engine run time") {
        return Some("Tiempo del motor");
    }
    if str_eq(m, "Signal") {
        return Some("Señal");
    }
    if str_eq(m, "Value") {
        return Some("Valor");
    }
    if str_eq(m, "Source") {
        return Some("Origen");
    }
    if str_eq(m, "CAN ID") {
        return Some("ID CAN");
    }
    if str_eq(m, "Payload") {
        return Some("Carga útil");
    }
    if str_eq(m, "Count") {
        return Some("Conteo");
    }
    if str_eq(m, "Engine load") {
        return Some("Carga del motor");
    }
    if str_eq(m, "Throttle") {
        return Some("Acelerador");
    }
    if str_eq(m, "Accelerator") {
        return Some("Pedal del acelerador");
    }
    if str_eq(m, "Commanded throttle") {
        return Some("Acelerador solicitado");
    }
    if str_eq(m, "Short fuel trim") {
        return Some("Ajuste corto de combustible");
    }
    if str_eq(m, "Long fuel trim") {
        return Some("Ajuste largo de combustible");
    }
    if str_eq(m, "Fuel level") {
        return Some("Nivel de combustible");
    }
    if str_eq(m, "No frames") {
        return Some("Sin tramas");
    }
    if str_eq(m, "Waiting for decoded CAN/PID values") {
        return Some("Esperando valores CAN/PID decodificados");
    }
    if str_eq(m, "No unknown frames") {
        return Some("No hay tramas desconocidas");
    }
    if str_eq(m, "Some changes might require restart.") {
        return Some("Algunos cambios pueden requerir un reinicio.");
    }
    None
}

/// The text shown for `msgid` in `language`: the table entry when there is
/// one, otherwise `msgid` itself.
pub open spec fn localized_text(language: Language, msgid: Seq<char>) -> Seq<char> {
    let entry = match language {
        Language::English => None,
        Language::Japanese => japanese_text(msgid),
        Language::Spanish => spanish_text(msgid),
    };
    match entry {
        Some(t) => t,
        None => msgid,
    }
}

pub fn translate_for_language<'a>(language: Language, msgid: &'a str) -> (t: &'a str)
    ensures
        t@ == localized_text(language, msgid@),
{
    let entry = match language {
        Language::English => None,
        Language::Japanese => japanese(msgid),
        Language::Spanish => spanish(msgid),
    };
    match entry {
        Some(t) => t,
        None => msgid,
    }
}

} // verus!
