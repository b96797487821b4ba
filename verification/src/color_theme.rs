use crate::text::same_text;
use vstd::prelude::*;
use vstd::string::*;

verus! {

/// The colours of a rendered grid. Colours are red, green and blue.
#[derive(Debug)]
pub struct ColorTheme {
    pub name: String,
    pub grid_background_color: [u8; 3],
    pub grid_line_color: [u8; 3],
    pub text_color: [u8; 3],
    /// Brightness of the background of the label, in percent of the picture's.
    pub text_background_adjustment: u32,
    pub obstacle_color: [u8; 3],
    pub center_color: [u8; 3],
    /// The colour of a covered cell by its visits; the last one is for all
    /// higher counts.
    pub coverage_shades: Vec<[u8; 3]>,
}

impl ColorTheme {
    /// The colour of a cell that was visited `times_visited` times.
    pub fn get_coverage_color(&self, times_visited: usize) -> (color: [u8; 3])
        requires
            self.coverage_shades@.len() > 0,
        ensures
            color == self.coverage_shades@[if times_visited < self.coverage_shades@.len() {
                times_visited as int
            } else {
                self.coverage_shades@.len() - 1
            }],
    {
        let last = self.coverage_shades.len() - 1;
        let color_idx = if times_visited < last {
            times_visited
        } else {
            last
        };
        self.coverage_shades[color_idx]
    }

    /// The number of shades the theme tells apart.
    pub fn max_coverage_levels(&self) -> (levels: usize)
        ensures
            levels == self.coverage_shades@.len(),
    {
        self.coverage_shades.len()
    }
}

/// The shades of the theme `default`, by visits.
pub open spec fn default_shades() -> Seq<[u8; 3]> {
    seq![
        [240u8, 255u8, 240u8],
        [220u8, 255u8, 220u8],
        [200u8, 255u8, 200u8],
        [180u8, 255u8, 180u8],
        [160u8, 255u8, 160u8],
        [140u8, 255u8, 140u8],
        [120u8, 255u8, 120u8],
        [100u8, 255u8, 100u8],
        [80u8, 220u8, 80u8],
        [60u8, 200u8, 60u8],
        [40u8, 180u8, 40u8],
        [30u8, 160u8, 30u8],
        [20u8, 140u8, 20u8],
        [15u8, 120u8, 15u8],
        [10u8, 100u8, 10u8],
        [8u8, 80u8, 8u8],
        [6u8, 60u8, 6u8],
        [4u8, 40u8, 4u8],
        [2u8, 20u8, 2u8],
        [0u8, 64u8, 0u8],
        [0u8, 44u8, 0u8],
    ]
}

/// `theme` is the built-in theme `default`.
pub open spec fn is_default_theme(theme: ColorTheme) -> bool {
    &&& theme.name@ == "default"@
    &&& theme.coverage_shades@ == default_shades()
    &&& theme.text_background_adjustment == 40
    &&& theme.grid_background_color == [150u8, 150u8, 150u8]
    &&& theme.grid_line_color == [0u8, 0u8, 0u8]
    &&& theme.text_color == [255u8, 255u8, 255u8]
    &&& theme.obstacle_color == [150u8, 0u8, 0u8]
    &&& theme.center_color == [0u8, 0u8, 0u8]
}

/// The default theme: shades of green on grey.
pub fn default_theme() -> (theme: ColorTheme)
    ensures
        is_default_theme(theme),
        theme.name@ == "default"@,
        theme.coverage_shades@.len() == 21,
{
    ColorTheme {
        name: "default".to_owned(),
        grid_background_color: [150, 150, 150],
        text_color: [255, 255, 255],
        text_background_adjustment: 40,
        grid_line_color: [0, 0, 0],
        obstacle_color: [150, 0, 0],
        center_color: [0, 0, 0],
        coverage_shades: vec![
            [240u8, 255, 240],
            [220u8, 255, 220],
            [200u8, 255, 200],
            [180u8, 255, 180],
            [160u8, 255, 160],
            [140u8, 255, 140],
            [120u8, 255, 120],
            [100u8, 255, 100],
            [80u8, 220, 80],
            [60u8, 200, 60],
            [40u8, 180, 40],
            [30u8, 160, 30],
            [20u8, 140, 20],
            [15u8, 120, 15],
            [10u8, 100, 10],
            [8u8, 80, 8],
            [6u8, 60, 6],
            [4u8, 40, 4],
            [2u8, 20, 2],
            [0u8, 64, 0],
            [0u8, 44, 0],
        ],
    }
}

/// The shades of the theme `green30`, by visits.
pub open spec fn extended_green_shades() -> Seq<[u8; 3]> {
    seq![
        [240u8, 255u8, 240u8],
        [230u8, 250u8, 230u8],
        [220u8, 255u8, 220u8],
        [210u8, 245u8, 210u8],
        [200u8, 255u8, 200u8],
        [190u8, 245u8, 190u8],
        [180u8, 255u8, 180u8],
        [170u8, 245u8, 170u8],
        [160u8, 255u8, 160u8],
        [150u8, 245u8, 150u8],
        [140u8, 255u8, 140u8],
        [130u8, 245u8, 130u8],
        [120u8, 255u8, 120u8],
        [110u8, 245u8, 110u8],
        [100u8, 255u8, 100u8],
        [90u8, 230u8, 90u8],
        [80u8, 220u8, 80u8],
        [70u8, 210u8, 70u8],
        [60u8, 200u8, 60u8],
        [50u8, 190u8, 50u8],
        [40u8, 180u8, 40u8],
        [35u8, 170u8, 35u8],
        [30u8, 160u8, 30u8],
        [25u8, 150u8, 25u8],
        [20u8, 140u8, 20u8],
        [15u8, 120u8, 15u8],
        [10u8, 100u8, 10u8],
        [8u8, 80u8, 8u8],
        [4u8, 60u8, 4u8],
        [0u8, 44u8, 0u8],
    ]
}

/// `theme` is the built-in theme `green30`.
pub open spec fn is_extended_green_theme(theme: ColorTheme) -> bool {
    &&& theme.name@ == "green30"@
    &&& theme.coverage_shades@ == extended_green_shades()
    &&& theme.text_background_adjustment == 40
    &&& theme.grid_background_color == [150u8, 150u8, 150u8]
    &&& theme.grid_line_color == [0u8, 0u8, 0u8]
    &&& theme.text_color == [255u8, 255u8, 255u8]
    &&& theme.obstacle_color == [150u8, 0u8, 0u8]
    &&& theme.center_color == [0u8, 0u8, 0u8]
}

/// Shades of green in thirty steps.
pub fn extended_green_theme() -> (theme: ColorTheme)
    ensures
        is_extended_green_theme(theme),
        theme.name@ == "green30"@,
        theme.coverage_shades@.len() == 30,
{
    ColorTheme {
        name: "green30".to_owned(),
        grid_background_color: [150, 150, 150],
        text_color: [255, 255, 255],
        text_background_adjustment: 40,
        grid_line_color: [0, 0, 0],
        obstacle_color: [150, 0, 0],
        center_color: [0, 0, 0],
        coverage_shades: vec![
            [240u8, 255, 240],
            [230u8, 250, 230],
            [220u8, 255, 220],
            [210u8, 245, 210],
            [200u8, 255, 200],
            [190u8, 245, 190],
            [180u8, 255, 180],
            [170u8, 245, 170],
            [160u8, 255, 160],
            [150u8, 245, 150],
            [140u8, 255, 140],
            [130u8, 245, 130],
            [120u8, 255, 120],
            [110u8, 245, 110],
            [100u8, 255, 100],
            [90u8, 230, 90],
            [80u8, 220, 80],
            [70u8, 210, 70],
            [60u8, 200, 60],
            [50u8, 190, 50],
            [40u8, 180, 40],
            [35u8, 170, 35],
            [30u8, 160, 30],
            [25u8, 150, 25],
            [20u8, 140, 20],
            [15u8, 120, 15],
            [10u8, 100, 10],
            [8u8, 80, 8],
            [4u8, 60, 4],
            [0u8, 44, 0],
        ],
    }
}

/// The shades of the theme `blue`, by visits.
pub open spec fn blue_shades() -> Seq<[u8; 3]> {
    seq![
        [240u8, 248u8, 255u8],
        [220u8, 235u8, 255u8],
        [200u8, 220u8, 255u8],
        [180u8, 205u8, 255u8],
        [160u8, 190u8, 255u8],
        [140u8, 175u8, 255u8],
        [120u8, 160u8, 255u8],
        [100u8, 145u8, 255u8],
        [80u8, 130u8, 220u8],
        [60u8, 115u8, 200u8],
        [40u8, 100u8, 180u8],
        [30u8, 85u8, 160u8],
        [20u8, 70u8, 140u8],
        [15u8, 55u8, 120u8],
        [10u8, 40u8, 100u8],
        [8u8, 30u8, 80u8],
        [6u8, 20u8, 60u8],
        [4u8, 15u8, 40u8],
        [2u8, 10u8, 20u8],
        [0u8, 0u8, 64u8],
        [0u8, 0u8, 44u8],
    ]
}

/// `theme` is the built-in theme `blue`.
pub open spec fn is_blue_theme(theme: ColorTheme) -> bool {
    &&& theme.name@ == "blue"@
    &&& theme.coverage_shades@ == blue_shades()
    &&& theme.text_background_adjustment == 30
    &&& theme.grid_background_color == [150u8, 150u8, 150u8]
    &&& theme.grid_line_color == [0u8, 0u8, 0u8]
    &&& theme.text_color == [255u8, 255u8, 255u8]
    &&& theme.obstacle_color == [150u8, 0u8, 0u8]
    &&& theme.center_color == [0u8, 0u8, 0u8]
}

/// Shades of blue.
pub fn blue_theme() -> (theme: ColorTheme)
    ensures
        is_blue_theme(theme),
        theme.name@ == "blue"@,
        theme.coverage_shades@.len() == 21,
{
    ColorTheme {
        name: "blue".to_owned(),
        grid_background_color: [150, 150, 150],
        text_color: [255, 255, 255],
        text_background_adjustment: 30,
        grid_line_color: [0, 0, 0],
        obstacle_color: [150, 0, 0],
        center_color: [0, 0, 0],
        coverage_shades: vec![
            [240u8, 248, 255],
            [220u8, 235, 255],
            [200u8, 220, 255],
            [180u8, 205, 255],
            [160u8, 190, 255],
            [140u8, 175, 255],
            [120u8, 160, 255],
            [100u8, 145, 255],
            [80u8, 130, 220],
            [60u8, 115, 200],
            [40u8, 100, 180],
            [30u8, 85, 160],
            [20u8, 70, 140],
            [15u8, 55, 120],
            [10u8, 40, 100],
            [8u8, 30, 80],
            [6u8, 20, 60],
            [4u8, 15, 40],
            [2u8, 10, 20],
            [0u8, 0, 64],
            [0u8, 0, 44],
        ],
    }
}

/// The shades of the theme `pure_green`, by visits.
pub open spec fn pure_green_shades() -> Seq<[u8; 3]> {
    seq![
        [240u8, 255u8, 240u8],
        [230u8, 250u8, 230u8],
        [220u8, 245u8, 220u8],
        [210u8, 240u8, 210u8],
        [200u8, 235u8, 200u8],
        [190u8, 230u8, 190u8],
        [180u8, 225u8, 180u8],
        [170u8, 220u8, 170u8],
        [160u8, 215u8, 160u8],
        [150u8, 210u8, 150u8],
        [140u8, 205u8, 140u8],
        [130u8, 200u8, 130u8],
        [120u8, 195u8, 120u8],
        [110u8, 190u8, 110u8],
        [100u8, 185u8, 100u8],
        [90u8, 180u8, 90u8],
        [80u8, 175u8, 80u8],
        [70u8, 170u8, 70u8],
        [60u8, 165u8, 60u8],
        [50u8, 160u8, 50u8],
        [40u8, 155u8, 40u8],
        [30u8, 150u8, 30u8],
        [25u8, 135u8, 25u8],
        [20u8, 125u8, 20u8],
        [18u8, 115u8, 18u8],
        [16u8, 105u8, 16u8],
        [14u8, 95u8, 14u8],
        [12u8, 85u8, 12u8],
        [10u8, 75u8, 10u8],
        [8u8, 65u8, 8u8],
    ]
}

/// `theme` is the built-in theme `pure_green`.
pub open spec fn is_pure_green_theme(theme: ColorTheme) -> bool {
    &&& theme.name@ == "pure_green"@
    &&& theme.coverage_shades@ == pure_green_shades()
    &&& theme.text_background_adjustment == 40
    &&& theme.grid_background_color == [150u8, 150u8, 150u8]
    &&& theme.grid_line_color == [0u8, 0u8, 0u8]
    &&& theme.text_color == [255u8, 255u8, 255u8]
    &&& theme.obstacle_color == [150u8, 0u8, 0u8]
    &&& theme.center_color == [0u8, 0u8, 0u8]
}

/// Shades of green without the brightest ones.
pub fn pure_green_theme() -> (theme: ColorTheme)
    ensures
        is_pure_green_theme(theme),
        theme.name@ == "pure_green"@,
        theme.coverage_shades@.len() == 30,
{
    ColorTheme {
        name: "pure_green".to_owned(),
        grid_background_color: [150, 150, 150],
        text_color: [255, 255, 255],
        text_background_adjustment: 40,
        grid_line_color: [0, 0, 0],
        obstacle_color: [150, 0, 0],
        center_color: [0, 0, 0],
        coverage_shades: vec![
            [240u8, 255, 240],
            [230u8, 250, 230],
            [220u8, 245, 220],
            [210u8, 240, 210],
            [200u8, 235, 200],
            [190u8, 230, 190],
            [180u8, 225, 180],
            [170u8, 220, 170],
            [160u8, 215, 160],
            [150u8, 210, 150],
            [140u8, 205, 140],
            [130u8, 200, 130],
            [120u8, 195, 120],
            [110u8, 190, 110],
            [100u8, 185, 100],
            [90u8, 180, 90],
            [80u8, 175, 80],
            [70u8, 170, 70],
            [60u8, 165, 60],
            [50u8, 160, 50],
            [40u8, 155, 40],
            [30u8, 150, 30],
            [25u8, 135, 25],
            [20u8, 125, 20],
            [18u8, 115, 18],
            [16u8, 105, 16],
            [14u8, 95, 14],
            [12u8, 85, 12],
            [10u8, 75, 10],
            [8u8, 65, 8],
        ],
    }
}

/// The shades of the theme `gray_green`, by visits.
pub open spec fn gray_green_shades() -> Seq<[u8; 3]> {
    seq![
        [240u8, 255u8, 240u8],
        [230u8, 250u8, 230u8],
        [220u8, 245u8, 220u8],
        [210u8, 240u8, 210u8],
        [200u8, 235u8, 200u8],
        [190u8, 230u8, 190u8],
        [180u8, 225u8, 180u8],
        [170u8, 220u8, 170u8],
        [160u8, 215u8, 160u8],
        [150u8, 210u8, 150u8],
        [140u8, 205u8, 140u8],
        [130u8, 200u8, 130u8],
        [120u8, 195u8, 120u8],
        [110u8, 190u8, 110u8],
        [100u8, 185u8, 100u8],
        [90u8, 180u8, 90u8],
        [80u8, 175u8, 80u8],
        [70u8, 170u8, 70u8],
        [60u8, 165u8, 60u8],
        [50u8, 160u8, 50u8],
        [40u8, 155u8, 40u8],
        [30u8, 150u8, 30u8],
        [25u8, 135u8, 25u8],
        [20u8, 125u8, 20u8],
        [18u8, 115u8, 18u8],
        [16u8, 105u8, 16u8],
        [14u8, 95u8, 14u8],
        [12u8, 85u8, 12u8],
        [10u8, 75u8, 10u8],
        [8u8, 65u8, 8u8],
    ]
}

/// `theme` is the built-in theme `gray_green`.
pub open spec fn is_gray_green_theme(theme: ColorTheme) -> bool {
    &&& theme.name@ == "gray_green"@
    &&& theme.coverage_shades@ == gray_green_shades()
    &&& theme.text_background_adjustment == 20
    &&& theme.grid_background_color == [150u8, 150u8, 150u8]
    &&& theme.grid_line_color == [0u8, 0u8, 0u8]
    &&& theme.text_color == [255u8, 255u8, 255u8]
    &&& theme.obstacle_color == [150u8, 0u8, 0u8]
    &&& theme.center_color == [0u8, 0u8, 0u8]
}

/// As the pure green theme, with a darker label.
pub fn gray_green_theme() -> (theme: ColorTheme)
    ensures
        is_gray_green_theme(theme),
        theme.name@ == "gray_green"@,
        theme.coverage_shades@.len() == 30,
{
    ColorTheme {
        name: "gray_green".to_owned(),
        grid_background_color: [150, 150, 150],
        text_color: [255, 255, 255],
        text_background_adjustment: 20,
        grid_line_color: [0, 0, 0],
        obstacle_color: [150, 0, 0],
        center_color: [0, 0, 0],
        coverage_shades: vec![
            [240u8, 255, 240],
            [230u8, 250, 230],
            [220u8, 245, 220],
            [210u8, 240, 210],
            [200u8, 235, 200],
            [190u8, 230, 190],
            [180u8, 225, 180],
            [170u8, 220, 170],
            [160u8, 215, 160],
            [150u8, 210, 150],
            [140u8, 205, 140],
            [130u8, 200, 130],
            [120u8, 195, 120],
            [110u8, 190, 110],
            [100u8, 185, 100],
            [90u8, 180, 90],
            [80u8, 175, 80],
            [70u8, 170, 70],
            [60u8, 165, 60],
            [50u8, 160, 50],
            [40u8, 155, 40],
            [30u8, 150, 30],
            [25u8, 135, 25],
            [20u8, 125, 20],
            [18u8, 115, 18],
            [16u8, 105, 16],
            [14u8, 95, 14],
            [12u8, 85, 12],
            [10u8, 75, 10],
            [8u8, 65, 8],
        ],
    }
}

/// The shades of the theme `orange_red`, by visits.
pub open spec fn high_contrast_shades() -> Seq<[u8; 3]> {
    seq![
        [255u8, 255u8, 0u8],
        [255u8, 200u8, 0u8],
        [255u8, 150u8, 0u8],
        [255u8, 100u8, 0u8],
        [255u8, 50u8, 0u8],
        [200u8, 0u8, 0u8],
        [150u8, 0u8, 0u8],
        [100u8, 0u8, 0u8],
        [50u8, 0u8, 0u8],
        [0u8, 0u8, 0u8],
    ]
}

/// `theme` is the built-in theme `orange_red`.
pub open spec fn is_high_contrast_theme(theme: ColorTheme) -> bool {
    &&& theme.name@ == "orange_red"@
    &&& theme.coverage_shades@ == high_contrast_shades()
    &&& theme.text_background_adjustment == 10
    &&& theme.grid_background_color == [255u8, 255u8, 255u8]
    &&& theme.grid_line_color == [128u8, 128u8, 128u8]
    &&& theme.text_color == [255u8, 255u8, 255u8]
    &&& theme.obstacle_color == [0u8, 0u8, 255u8]
    &&& theme.center_color == [0u8, 0u8, 0u8]
}

/// Yellow over orange and red to black, on white.
pub fn high_contrast_theme() -> (theme: ColorTheme)
    ensures
        is_high_contrast_theme(theme),
        theme.name@ == "orange_red"@,
        theme.coverage_shades@.len() == 10,
{
    ColorTheme {
        name: "orange_red".to_owned(),
        grid_background_color: [255, 255, 255],
        text_color: [255, 255, 255],
        text_background_adjustment: 10,
        grid_line_color: [128, 128, 128],
        obstacle_color: [0, 0, 255],
        center_color: [0, 0, 0],
        coverage_shades: vec![
            [255u8, 255, 0],
            [255u8, 200, 0],
            [255u8, 150, 0],
            [255u8, 100, 0],
            [255u8, 50, 0],
            [200u8, 0, 0],
            [150u8, 0, 0],
            [100u8, 0, 0],
            [50u8, 0, 0],
            [0u8, 0, 0],
        ],
    }
}

/// The colour themes by name. No two themes have the same name.
#[derive(Debug)]
pub struct ColorThemeManager {
    /// The themes in the order in which they were registered.
    pub themes: Vec<ColorTheme>,
    pub default_theme: String,
}

/// One of the themes has the given name.
pub open spec fn has_theme(themes: Seq<ColorTheme>, name: Seq<char>) -> bool {
    exists|i: int| 0 <= i < themes.len() && (#[trigger] themes[i]).name@ == name
}

/// No two of the themes have the same name.
pub open spec fn distinct_names(themes: Seq<ColorTheme>) -> bool {
    forall|i: int, j: int|
        0 <= i < j < themes.len() ==> (#[trigger] themes[i]).name@ != (#[trigger] themes[j]).name@
}

impl ColorThemeManager {
    /// No two themes have the same name, and the default theme is there.
    pub open spec fn wf(&self) -> bool {
        distinct_names(self.themes@) && has_theme(self.themes@, self.default_theme@)
    }

    /// The theme of the given name or, where there is none of that name, the
    /// default theme.
    pub open spec fn theme_for(&self, name: Seq<char>) -> ColorTheme {
        let wanted = if has_theme(self.themes@, name) {
            name
        } else {
            self.default_theme@
        };
        self.themes@[choose|i: int|
            0 <= i < self.themes@.len() && (#[trigger] self.themes@[i]).name@ == wanted]
    }

    /// Among themes of distinct names a name tells the position.
    pub proof fn lemma_position_by_name(&self, i: int, name: Seq<char>)
        requires
            distinct_names(self.themes@),
            0 <= i < self.themes@.len(),
            self.themes@[i].name@ == name,
        ensures
            (choose|k: int| 0 <= k < self.themes@.len() && (#[trigger] self.themes@[k]).name@ == name)
                == i,
    {
        let k = choose|k: int|
            0 <= k < self.themes@.len() && (#[trigger] self.themes@[k]).name@ == name;
        if k < i {
            assert(self.themes@[k].name@ != self.themes@[i].name@);
        } else if i < k {
            assert(self.themes@[i].name@ != self.themes@[k].name@);
        }
    }

    /// The position of the theme of the given name.
    pub fn find(&self, name: &str) -> (position: Option<usize>)
        ensures
            match position {
                Some(i) => i < self.themes@.len() && self.themes@[i as int].name@ == name@,
                None => !has_theme(self.themes@, name@),
            },
    {
        let mut i: usize = 0;
        while i < self.themes.len()
            invariant
                i <= self.themes@.len(),
                forall|k: int| 0 <= k < i ==> (#[trigger] self.themes@[k]).name@ != name@,
            decreases self.themes@.len() - i,
        {
            if same_text(self.themes[i].name.as_str(), name) {
                return Some(i);
            }
            i += 1;
        }
        None
    }

    /// The manager with the six built-in themes, `default` being the default.
    pub fn new() -> (manager: Self)
        ensures
            manager.wf(),
            manager.default_theme@ == "default"@,
            manager.themes@.len() == 6,
            is_default_theme(manager.themes@[0]),
            is_extended_green_theme(manager.themes@[1]),
            is_blue_theme(manager.themes@[2]),
            is_pure_green_theme(manager.themes@[3]),
            is_gray_green_theme(manager.themes@[4]),
            is_high_contrast_theme(manager.themes@[5]),
            forall|i: int| 0 <= i < 6 ==> (#[trigger] manager.themes@[i]).coverage_shades@.len() > 0,
    {
        let mut manager = ColorThemeManager {
            themes: Vec::new(),
            default_theme: "default".to_owned(),
        };
        manager.themes.push(default_theme());
        manager.themes.push(extended_green_theme());
        manager.themes.push(blue_theme());
        manager.themes.push(pure_green_theme());
        manager.themes.push(gray_green_theme());
        manager.themes.push(high_contrast_theme());
        proof {
            reveal_strlit("default");
            reveal_strlit("green30");
            reveal_strlit("blue");
            reveal_strlit("pure_green");
            reveal_strlit("gray_green");
            reveal_strlit("orange_red");
            assert("default"@.len() == 7 && "green30"@[0] == 'g' && "blue"@.len() == 4
                && "pure_green"@[0] == 'p' && "gray_green"@[1] == 'r' && "orange_red"@[0] == 'o'
                && "green30"@[1] == 'r' && "gray_green"@[0] == 'g' && "green30"@.len() == 7
                && "gray_green"@.len() == 10 && "pure_green"@.len() == 10 && "orange_red"@.len()
                == 10 && "default"@[0] == 'd');
            assert(manager.themes@[0].name@ == manager.default_theme@);
        }
        manager
    }

    /// Registers a theme. A theme of the same name is replaced.
    pub fn register_theme(&mut self, theme: ColorTheme)
        requires
            distinct_names(old(self).themes@),
        ensures
            distinct_names(final(self).themes@),
            final(self).default_theme == old(self).default_theme,
            has_theme(final(self).themes@, theme.name@),
            final(self).themes@ == (if has_theme(old(self).themes@, theme.name@) {
                old(self).themes@.update(
                    choose|i: int|
                        0 <= i < old(self).themes@.len() && (#[trigger] old(self).themes@[i]).name@
                            == theme.name@,
                    theme,
                )
            } else {
                old(self).themes@.push(theme)
            }),
            old(self).wf() ==> final(self).wf(),
    {
        match self.find(theme.name.as_str()) {
            Some(i) => {
                proof {
                    let w = choose|w: int|
                        0 <= w < self.themes@.len() && (#[trigger] self.themes@[w]).name@
                            == theme.name@;
                    assert(w == i) by {
                        if w < i {
                            assert(self.themes@[w].name@ != self.themes@[i as int].name@);
                        } else if i < w {
                            assert(self.themes@[i as int].name@ != self.themes@[w].name@);
                        }
                    }
                }
                let ghost before = self.themes@;
                self.themes[i] = theme;
                proof {
                    assert(self.themes@[i as int].name@ == theme.name@);
                    assert forall|a: int, b: int| 0 <= a < b < self.themes@.len() implies (
                    #[trigger] self.themes@[a]).name@ != (#[trigger] self.themes@[b]).name@ by {
                        assert(before[a].name@ != before[b].name@);
                    }
                    if old(self).wf() {
                        let d = choose|d: int|
                            0 <= d < before.len() && (#[trigger] before[d]).name@
                                == self.default_theme@;
                        assert(self.themes@[d].name@ == self.default_theme@);
                    }
                }
            },
            None => {
                let ghost before = self.themes@;
                let ghost name = theme.name@;
                self.themes.push(theme);
                proof {
                    assert(self.themes@[before.len() as int].name@ == name);
                    assert forall|a: int, b: int| 0 <= a < b < self.themes@.len() implies (
                    #[trigger] self.themes@[a]).name@ != (#[trigger] self.themes@[b]).name@ by {
                        if b < before.len() {
                            assert(before[a].name@ != before[b].name@);
                        } else {
                            assert(before[a].name@ != name);
                        }
                    }
                    if old(self).wf() {
                        let d = choose|d: int|
                            0 <= d < before.len() && (#[trigger] before[d]).name@
                                == self.default_theme@;
                        assert(self.themes@[d].name@ == self.default_theme@);
                    }
                }
            },
        }
    }

    /// The theme of the given name, or the default theme where there is none
    /// of that name.
    pub fn get_theme(&self, name: &str) -> (theme: &ColorTheme)
        requires
            self.wf(),
        ensures
            *theme == self.theme_for(name@),
            has_theme(self.themes@, name@) ==> theme.name@ == name@,
            !has_theme(self.themes@, name@) ==> theme.name@ == self.default_theme@,
    {
        match self.find(name) {
            Some(i) => {
                proof {
                    self.lemma_position_by_name(i as int, name@);
                }
                &self.themes[i]
            },
            None => self.get_default_theme(),
        }
    }

    /// The default theme.
    pub fn get_default_theme(&self) -> (theme: &ColorTheme)
        requires
            self.wf(),
        ensures
            theme.name@ == self.default_theme@,
            *theme == self.theme_for(self.default_theme@),
    {
        match self.find(self.default_theme.as_str()) {
            Some(i) => {
                proof {
                    self.lemma_position_by_name(i as int, self.default_theme@);
                }
                &self.themes[i]
            },
            None => {
                proof {
                    assert(false);
                }
                &self.themes[0]
            },
        }
    }

    /// The names of all themes, in the order in which they were registered.
    pub fn list_theme_names(&self) -> (names: Vec<&String>)
        ensures
            names@.len() == self.themes@.len(),
            forall|i: int| 0 <= i < names@.len() ==> *(#[trigger] names@[i]) == self.themes@[i].name,
    {
        let mut names: Vec<&String> = Vec::new();
        let mut i: usize = 0;
        while i < self.themes.len()
            invariant
                i <= self.themes@.len(),
                names@.len() == i,
                forall|k: int| 0 <= k < i ==> *(#[trigger] names@[k]) == self.themes@[k].name,
            decreases self.themes@.len() - i,
        {
            names.push(&self.themes[i].name);
            i += 1;
        }
        names
    }

    /// Whether there is a theme of the given name.
    pub fn is_valid_theme_name(&self, name: &str) -> (valid: bool)
        ensures
            valid == has_theme(self.themes@, name@),
    {
        self.find(name).is_some()
    }

    /// Makes the theme of the given name the default. Fails, and changes
    /// nothing, where there is no theme of that name.
    pub fn set_default_theme(&mut self, name: &str) -> (outcome: Result<(), String>)
        ensures
            final(self).themes == old(self).themes,
            outcome is Ok == has_theme(old(self).themes@, name@),
            outcome is Ok ==> final(self).default_theme@ == name@,
            outcome is Err ==> final(self).default_theme == old(self).default_theme,
            outcome matches Err(message) ==> message@ == "Theme '"@ + name@ + "' not found"@,
            distinct_names(old(self).themes@) && outcome is Ok ==> final(self).wf(),
    {
        if self.find(name).is_some() {
            self.default_theme = name.to_owned();
            Ok(())
        } else {
            Err("Theme '".to_owned().concat(name).concat("' not found"))
        }
    }
}

/// The names of the built-in colour themes.
pub fn get_available_themes() -> (names: Vec<String>)
    ensures
        names@.len() == 6,
        names@[0]@ == "default"@,
        names@[1]@ == "green30"@,
        names@[2]@ == "blue"@,
        names@[3]@ == "pure_green"@,
        names@[4]@ == "gray_green"@,
        names@[5]@ == "orange_red"@,
{
    let theme_manager = ColorThemeManager::new();
    let mut names: Vec<String> = Vec::new();
    let mut i: usize = 0;
    while i < theme_manager.themes.len()
        invariant
            i <= theme_manager.themes@.len(),
            names@.len() == i,
            forall|k: int| 0 <= k < i ==> (#[trigger] names@[k])@ == theme_manager.themes@[k].name@,
        decreases theme_manager.themes@.len() - i,
    {
        names.push(theme_manager.themes[i].name.as_str().to_owned());
        i += 1;
    }
    names
}

/// A manager with the built-in themes.
pub fn create_theme_manager() -> (manager: ColorThemeManager)
    ensures
        manager.wf(),
        manager.themes@.len() == 6,
{
    ColorThemeManager::new()
}

} // verus!
