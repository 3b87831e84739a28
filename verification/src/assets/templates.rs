//! The built-in templates: a Markdown layout and an HTML layout for the
//! model-card fields that the built-in schema describes.

use vstd::prelude::*;

verus! {

pub const MD_TEMPLATE: &'static str = "# Model Card for {{ model_details.name }}

{{ model_details.overview }}

Version: {{ model_details.version.name }} ({{ model_details.version.date }})

## Owners

{% for owner in model_details.owners %}- {{ owner.name }} ({{ owner.contact }})
{% endfor %}
## Considerations

{% for item in considerations.limitations %}- {{ item }}
{% endfor %}
## Ethical considerations

{% for item in considerations.ethical_considerations %}- {{ item }}
{% endfor %}
## Metrics

{% for metric in quantitative_analysis.performance_metrics %}- {{ metric.type }}: {{ metric.value }}
{% endfor %}";

pub const HTML_TEMPLATE: &'static str = "<!doctype html>
<html>
<head><title>Model Card for {{ model_details.name }}</title></head>
<body>
<h1>Model Card for {{ model_details.name }}</h1>
<p>{{ model_details.overview }}</p>
<p>Version: {{ model_details.version.name }} ({{ model_details.version.date }})</p>
<h2>Owners</h2>
<ul>
{% for owner in model_details.owners %}<li>{{ owner.name }} ({{ owner.contact }})</li>
{% endfor %}</ul>
<h2>Considerations</h2>
<ul>
{% for item in considerations.limitations %}<li>{{ item }}</li>
{% endfor %}</ul>
<h2>Metrics</h2>
<ul>
{% for metric in quantitative_analysis.performance_metrics %}<li>{{ metric.type }}: {{ metric.value }}</li>
{% endfor %}</ul>
</body>
</html>
";

/// The text of the built-in Markdown template.
pub open spec fn md_template_text() -> Seq<char> {
    MD_TEMPLATE@
}

/// The text of the built-in HTML template.
pub open spec fn html_template_text() -> Seq<char> {
    HTML_TEMPLATE@
}

/// The built-in Markdown template body.
pub fn get_md() -> (r: String)
    ensures
        r@ == md_template_text(),
{
    MD_TEMPLATE.to_owned()
}

/// The built-in HTML template body.
pub fn get_html() -> (r: String)
    ensures
        r@ == html_template_text(),
{
    HTML_TEMPLATE.to_owned()
}

} // verus!
